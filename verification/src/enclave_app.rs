//! The enclave's side of the host interface: a dispatcher from operation codes
//! to the issuing enclave, with the key installation protocol and the
//! attestation of the transfer key.

use vstd::prelude::*;
use vstd::string::*;

use crate::crypto::{hpke_auth_open, hpke_open_auth_bytes};
use crate::ct::bytes::{append_bytes, array_at};
use crate::star_core::enclave::Enclave;
use crate::star_core::secure_channel::server::{
    envelope_aad, envelope_ciphertext, envelope_enc, envelope_info, SecureChannelServer,
};
use crate::text::str_equals;
use crate::tools::hex::{parse_hex, parse_hex_array};

verus! {

pub const PERIOD_LEN: usize = 8;
pub const PUBLIC_KEY_LEN: usize = 32;

/// The per-credential, per-period token limit that the enclave image embeds.
pub const MAX_COUNT: u32 = 100;

/// `MAX_COUNT` as the big-endian bytes embedded in the image.
pub const MEASURED_MAX_COUNT_BE: [u8; 4] = [0u8, 0u8, 0u8, 100u8];

pub const OP_INIT: u8 = 0;
pub const OP_PUBLIC_KEY: u8 = 1;
pub const OP_ISSUE_CRED: u8 = 2;
pub const OP_ISSUE_TOKEN: u8 = 3;
pub const OP_ATTEST: u8 = 4;
pub const OP_TRANSFER_PUBLIC_KEY: u8 = 5;
pub const OP_INSTALL_KEYS: u8 = 6;
pub const OP_ONE: u8 = 7;

pub const STATUS_OK: u8 = 0;
pub const STATUS_NOT_INITIALIZED: u8 = 1;
pub const STATUS_BAD_REQUEST: u8 = 2;
pub const STATUS_PANIC: u8 = 4;
pub const STATUS_BUFFER_TOO_SMALL: u8 = 5;

/// The limit the image embeds, read back from its big-endian bytes.
pub fn enclave_max_count() -> (r: u32)
    ensures
        r == MAX_COUNT,
{
    let b = MEASURED_MAX_COUNT_BE;
    (b[0] as u32) * 16777216 + (b[1] as u32) * 65536 + (b[2] as u32) * 256 + (b[3] as u32)
}

/// Nothing to run: the enclave is driven through its library entry.
pub fn run() {
}

/// The report data that binds a public key: the key followed by 32 zero bytes.
pub open spec fn report_data_of(public_key: Seq<u8>) -> Seq<u8> {
    public_key + Seq::new(32, |_i: int| 0u8)
}

pub fn report_data_for_public_key(public_key: [u8; PUBLIC_KEY_LEN]) -> (r: [u8; 64])
    ensures
        r@ == report_data_of(public_key@),
{
    let mut out = [0u8; 64];
    let mut k: usize = 0;
    while k < 32
        invariant
            0 <= k <= 32,
            out@.len() == 64,
            forall|j: int| 0 <= j < k ==> out@[j] == public_key@[j],
            forall|j: int| 32 <= j < 64 ==> out@[j] == 0u8,
        decreases 32 - k,
    {
        out[k] = public_key[k];
        k = k + 1;
    }
    assert(out@ =~= report_data_of(public_key@));
    out
}

/// `hpke::HpkeError::MessageLimitReached`.
#[verifier::external_body]
fn message_limit_reached() -> (r: hpke::HpkeError) {
    hpke::HpkeError::MessageLimitReached
}

/// `hpke::HpkeError`'s `Debug` text (nothing is claimed of it).
#[verifier::external_body]
fn hpke_error_text(err: &hpke::HpkeError) -> (r: String) {
    format!("{err:?}")
}

/// What the transfer key opens an auth-mode envelope from `sender_pk` to.
pub open spec fn auth_envelope_open(sk: Seq<u8>, sender_pk: Seq<u8>, env: Seq<u8>) -> Option<Seq<u8>> {
    if env.len() < 96 {
        None
    } else {
        hpke_auth_open(
            sk,
            sender_pk,
            envelope_enc(env),
            envelope_info(env),
            envelope_aad(env),
            envelope_ciphertext(env),
        )
    }
}

/// The key pair that the key manager sends the production keys to.
pub struct TransferReceiver {
    pub channel: SecureChannelServer,
}

impl TransferReceiver {
    pub fn random() -> (r: Self)
        ensures
            r.channel.wf(),
    {
        Self { channel: SecureChannelServer::random() }
    }

    pub fn public_key(&self) -> (r: [u8; PUBLIC_KEY_LEN])
        ensures
            r == self.channel.pk,
    {
        self.channel.public_key()
    }

    /// Opens an auth-mode HPKE envelope `aad || info || enc || ciphertext`
    /// from the sender's public key.
    pub fn open_auth(&self, envelope: &[u8], sender_public_key: [u8; PUBLIC_KEY_LEN]) -> (r: Result<
        Vec<u8>,
        hpke::HpkeError,
    >)
        ensures
            r is Ok <==> auth_envelope_open(self.channel.sk@, sender_public_key@, envelope@) is Some,
            r matches Ok(p) ==> auth_envelope_open(self.channel.sk@, sender_public_key@, envelope@)
                == Some(p@),
    {
        if envelope.len() < 96 {
            return Err(message_limit_reached());
        }
        let aad = &envelope[0..32];
        let info = &envelope[32..64];
        let enc = &envelope[64..96];
        let ciphertext = &envelope[96..envelope.len()];
        hpke_open_auth_bytes(&self.channel.sk, &sender_public_key, enc, info, aad, ciphertext)
    }
}

/// The production keys: the MAC key and the channel's secret key.
#[derive(Clone, Copy)]
pub struct KeyBundle {
    pub enc_key: [u8; 32],
    pub hpke_receiver_key: [u8; 32],
}

pub fn decode_key_bundle(payload: &[u8]) -> (r: Result<KeyBundle, String>)
    ensures
        r is Ok <==> payload@.len() == 64,
        r matches Ok(b) ==> b.enc_key@ == payload@.subrange(0, 32) && b.hpke_receiver_key@
            == payload@.subrange(32, 64),
        r matches Err(e) ==> e@ == "key bundle must be 64 bytes"@,
{
    if payload.len() != 64 {
        return Err(String::from_str("key bundle must be 64 bytes"));
    }
    Ok(KeyBundle { enc_key: array_at(payload, 0), hpke_receiver_key: array_at(payload, 32) })
}

pub fn encode_key_bundle(bundle: KeyBundle) -> (r: Vec<u8>)
    ensures
        r@ == bundle.enc_key@ + bundle.hpke_receiver_key@,
{
    let mut out: Vec<u8> = Vec::new();
    append_bytes(&mut out, &bundle.enc_key);
    append_bytes(&mut out, &bundle.hpke_receiver_key);
    out
}

/// Reads a boolean policy setting: `specific`, or else `fallback`; the
/// accepted spellings of true and false, `default` when neither is set.
pub open spec fn policy_flag(value: Option<Seq<char>>, default: bool) -> Option<bool> {
    match value {
        None => Some(default),
        Some(v) => if v == "1"@ || v == "true"@ || v == "TRUE"@ || v == "yes"@ || v == "YES"@ {
            Some(true)
        } else if v == "0"@ || v == "false"@ || v == "FALSE"@ || v == "no"@ || v == "NO"@ {
            Some(false)
        } else {
            None
        },
    }
}

pub open spec fn first_set(specific: Option<&str>, fallback: Option<&str>) -> Option<Seq<char>> {
    match specific {
        Some(s) => Some(s@),
        None => match fallback {
            Some(f) => Some(f@),
            None => None,
        },
    }
}

fn parse_policy_flag(value: Option<&str>, default: bool) -> (r: Option<bool>)
    ensures
        r == policy_flag(
            match value {
                Some(v) => Some(v@),
                None => None,
            },
            default,
        ),
{
    match value {
        None => Some(default),
        Some(v) => {
            if str_equals(v, "1") || str_equals(v, "true") || str_equals(v, "TRUE") || str_equals(
                v,
                "yes",
            ) || str_equals(v, "YES") {
                Some(true)
            } else if str_equals(v, "0") || str_equals(v, "false") || str_equals(v, "FALSE")
                || str_equals(v, "no") || str_equals(v, "NO") {
                Some(false)
            } else {
                None
            }
        },
    }
}

fn or_fallback<'a>(specific: Option<&'a str>, fallback: Option<&'a str>) -> (r: Option<&'a str>)
    ensures
        match r {
            Some(s) => first_set(specific, fallback) == Some(s@),
            None => first_set(specific, fallback) is None,
        },
{
    match specific {
        Some(s) => Some(s),
        None => fallback,
    }
}

/// Whether a debug key manager is trusted: the specific setting, else the
/// general one, else whether this enclave itself is a debug build.
pub fn embedded_allow_debug(specific: Option<&str>, fallback: Option<&str>, default: bool) -> (r: Result<bool, String>)
    ensures
        match policy_flag(first_set(specific, fallback), default) {
            Some(b) => r == Ok::<bool, String>(b),
            None => r matches Err(e) && e@ == "invalid embedded debug policy"@,
        },
{
    match parse_policy_flag(or_fallback(specific, fallback), default) {
        Some(b) => Ok(b),
        None => Err(String::from_str("invalid embedded debug policy")),
    }
}

/// Whether advisory TCB statuses are accepted (off unless set).
pub fn embedded_allow_advisory(specific: Option<&str>, fallback: Option<&str>) -> (r: Result<bool, String>)
    ensures
        match policy_flag(first_set(specific, fallback), false) {
            Some(b) => r == Ok::<bool, String>(b),
            None => r matches Err(e) && e@ == "invalid embedded advisory policy"@,
        },
{
    match parse_policy_flag(or_fallback(specific, fallback), false) {
        Some(b) => Ok(b),
        None => Err(String::from_str("invalid embedded advisory policy")),
    }
}

/// Whether a peer with this enclave's signer is trusted (off unless set).
pub fn embedded_allow_same_signer(specific: Option<&str>, fallback: Option<&str>) -> (r: Result<bool, String>)
    ensures
        match policy_flag(first_set(specific, fallback), false) {
            Some(b) => r == Ok::<bool, String>(b),
            None => r matches Err(e) && e@ == "invalid embedded same-signer policy"@,
        },
{
    match parse_policy_flag(or_fallback(specific, fallback), false) {
        Some(b) => Ok(b),
        None => Err(String::from_str("invalid embedded same-signer policy")),
    }
}

/// What the dispatcher asks of its host besides a plain answer.
pub enum EnclaveStep {
    /// Answer the call with this status and payload.
    Respond(u8, Vec<u8>),
    /// Produce an attestation quote over this report data, then call
    /// `finish_attest` with the outcome.
    Attest([u8; 64]),
    /// Decode the install request in the payload, verify the key manager's
    /// evidence against the embedded policy, then call `install_verified_keys`
    /// with its public key and envelope.
    VerifyKeyManager,
}

/// The enclave's state: the issuing enclave once keys are installed, and the
/// transfer key pair that receives them.
pub struct EnclaveApp {
    pub enclave: Option<Enclave>,
    pub transfer_receiver: TransferReceiver,
}

/// The bytes of an ASCII text.
pub open spec fn ascii_bytes(s: Seq<char>) -> Seq<u8> {
    s.map_values(|c: char| c as u8)
}

/// What `OP_ISSUE_TOKEN` answers for `payload` (the current period, then the
/// client's envelope): the enclave's token response when the envelope opens,
/// a status and message otherwise.
pub open spec fn issue_token_answer(enclave: Option<Enclave>, payload: Seq<u8>) -> (u8, Seq<u8>) {
    if payload.len() < 8 {
        (STATUS_BAD_REQUEST, ascii_bytes("issue_token missing period"@))
    } else {
        match enclave {
            None => (STATUS_NOT_INITIALIZED, ascii_bytes("enclave is not initialized"@)),
            Some(e) => match crate::star_core::secure_channel::server::envelope_open(
                e.channel_secret(),
                payload.subrange(8, payload.len() as int),
            ) {
                None => (STATUS_BAD_REQUEST, ascii_bytes("issue_token failed"@)),
                Some(plain) => (
                    STATUS_OK,
                    crate::star_core::enclave::token_response(
                        e.mac_key(),
                        e.max_tickets(),
                        plain,
                        payload.subrange(0, 8),
                    ),
                ),
            },
        }
    }
}

/// What `OP_INIT` answers: an enclave with keys refuses, a payload is refused
/// (init never takes keys), and an empty payload succeeds with no body.
pub open spec fn init_answer(initialized: bool, payload: Seq<u8>) -> (u8, Seq<u8>) {
    if initialized {
        (STATUS_BAD_REQUEST, ascii_bytes("enclave already initialized"@))
    } else if payload.len() > 0 {
        (
            STATUS_BAD_REQUEST,
            ascii_bytes("init does not accept keys; install key-manager envelope with OP_INSTALL_KEYS"@),
        )
    } else {
        (STATUS_OK, Seq::<u8>::empty())
    }
}

/// A credential request that the enclave `e` serves: the envelope opens
/// under its channel key to a 32-byte reply key.
pub open spec fn cred_request_opens(e: Enclave, payload: Seq<u8>) -> bool {
    crate::star_core::secure_channel::server::envelope_open(e.channel_secret(), payload) matches Some(
        key,
    ) && key.len() == 32
}

/// The answer to a call on an enclave that has no keys yet.
pub open spec fn not_initialized(r: (u8, Vec<u8>)) -> bool {
    r.0 == STATUS_NOT_INITIALIZED && r.1@ == "enclave is not initialized"@.map_values(|c: char| c as u8)
}

/// The bytes of an ASCII message.
fn ascii_message(msg: &str) -> (r: Vec<u8>)
    requires
        msg.is_ascii(),
    ensures
        r@ == msg@.map_values(|c: char| c as u8),
{
    let mut out: Vec<u8> = Vec::new();
    let n = msg.unicode_len();
    let mut i: usize = 0;
    while i < n
        invariant
            0 <= i <= n,
            n == msg@.len(),
            msg.is_ascii(),
            out@ == msg@.subrange(0, i as int).map_values(|c: char| c as u8),
        decreases n - i,
    {
        out.push(msg.get_ascii(i));
        i = i + 1;
        assert(out@ =~= msg@.subrange(0, i as int).map_values(|c: char| c as u8));
    }
    assert(msg@.subrange(0, n as int) =~= msg@);
    out
}

fn not_initialized_response() -> (r: (u8, Vec<u8>))
    ensures
        not_initialized(r),
{
    let msg = "enclave is not initialized";
    proof {
        reveal_strlit("enclave is not initialized");
    }
    (STATUS_NOT_INITIALIZED, ascii_message(msg))
}

fn bad_request(msg: &str) -> (r: (u8, Vec<u8>))
    requires
        msg.is_ascii(),
    ensures
        r.0 == STATUS_BAD_REQUEST,
        r.1@ == msg@.map_values(|c: char| c as u8),
{
    (STATUS_BAD_REQUEST, ascii_message(msg))
}

/// The attestation service's answer on a host without SGX: quotes are only
/// produced on the Fortanix SGX target.
pub fn attest(_report_data: [u8; 64]) -> (r: Result<Vec<u8>, String>)
    ensures
        r matches Err(msg) && msg@ == "remote attestation requires the Fortanix SGX target"@,
{
    Err(String::from_str("remote attestation requires the Fortanix SGX target"))
}

/// What the enclave answers to `op` with `payload` on a host without SGX,
/// where its state goes from `before` to `after`: no quote can be produced and
/// no key manager can be verified, so attestation fails and key installation
/// is refused; every other operation answers as the dispatcher does.
pub open spec fn outside_sgx_answer(
    before: EnclaveApp,
    op: u8,
    payload: Seq<u8>,
    answer: (u8, Seq<u8>),
    after: EnclaveApp,
) -> bool {
    let (status, body) = answer;
    &&& after.enclave == before.enclave
    &&& op != OP_INIT ==> after == before
    &&& op == OP_INIT ==> answer == init_answer(before.enclave is Some, payload)
    &&& op == OP_INSTALL_KEYS ==> answer == (
        STATUS_BAD_REQUEST,
        ascii_bytes(
            if before.enclave is Some {
                "enclave already initialized"@
            } else {
                "key-manager policy is only available inside SGX"@
            },
        ),
    )
    &&& op == OP_ATTEST ==> answer == (if payload.len() > 0 {
        (STATUS_BAD_REQUEST, ascii_bytes("transfer attestation does not accept host report_data"@))
    } else {
        (STATUS_PANIC, ascii_bytes("remote attestation requires the Fortanix SGX target"@))
    })
    &&& op == OP_PUBLIC_KEY ==> answer == (match before.enclave {
        None => (STATUS_NOT_INITIALIZED, ascii_bytes("enclave is not initialized"@)),
        Some(e) => (STATUS_OK, e.channel_public()),
    })
    &&& op == OP_TRANSFER_PUBLIC_KEY ==> answer == (STATUS_OK, before.transfer_receiver.channel.pk@)
    &&& op == OP_ISSUE_TOKEN ==> answer == issue_token_answer(before.enclave, payload)
    &&& op == OP_ONE ==> answer == (STATUS_OK, Seq::new(32, |_i: int| 1u8))
    &&& op == OP_ISSUE_CRED ==> {
        &&& before.enclave is None ==> answer == (
            STATUS_NOT_INITIALIZED,
            ascii_bytes("enclave is not initialized"@),
        )
        &&& status == STATUS_OK ==> before.enclave is Some && body.len() > 0
        &&& before.enclave is Some && status != STATUS_OK ==> answer == (
            STATUS_BAD_REQUEST,
            ascii_bytes("issue_cred failed"@),
        )
        &&& before.enclave matches Some(e) ==> (status == STATUS_OK <==> cred_request_opens(e, payload))
    }
    &&& op > OP_ONE ==> answer == (STATUS_BAD_REQUEST, ascii_bytes("unknown operation"@))
}

impl EnclaveApp {
    pub fn new() -> (r: Self)
        ensures
            r.enclave is None,
            r.transfer_receiver.channel.wf(),
    {
        Self { enclave: None, transfer_receiver: TransferReceiver::random() }
    }

    pub fn with_enclave(enclave: Enclave) -> (r: Self)
        ensures
            r.enclave == Some(enclave),
            r.transfer_receiver.channel.wf(),
    {
        Self { enclave: Some(enclave), transfer_receiver: TransferReceiver::random() }
    }

    /// `OP_INIT` never installs keys: it only renews the transfer key pair.
    pub fn init(&mut self, payload: &[u8]) -> (r: (u8, Vec<u8>))
        ensures
            old(self).enclave is Some ==> r.0 == STATUS_BAD_REQUEST && r.1@ == ascii_bytes(
                "enclave already initialized"@,
            ) && *final(self) == *old(self),
            old(self).enclave is None && payload@.len() > 0 ==> r.0 == STATUS_BAD_REQUEST && r.1@
                == ascii_bytes(
                "init does not accept keys; install key-manager envelope with OP_INSTALL_KEYS"@,
            ) && *final(self) == *old(self),
            old(self).enclave is None && payload@.len() == 0 ==> r.0 == STATUS_OK && r.1@.len() == 0
                && final(self).enclave is None && final(self).transfer_receiver.channel.wf(),
    {
        if self.enclave.is_some() {
            let msg = "enclave already initialized";
            proof {
                reveal_strlit("enclave already initialized");
            }
            return bad_request(msg);
        }
        if payload.len() > 0 {
            let msg = "init does not accept keys; install key-manager envelope with OP_INSTALL_KEYS";
            proof {
                reveal_strlit("init does not accept keys; install key-manager envelope with OP_INSTALL_KEYS");
            }
            return bad_request(msg);
        }
        self.transfer_receiver = TransferReceiver::random();
        (STATUS_OK, Vec::new())
    }

    pub fn transfer_public_key(&self, _payload: &[u8]) -> (r: (u8, Vec<u8>))
        ensures
            r.0 == STATUS_OK,
            r.1@ == self.transfer_receiver.channel.pk@,
    {
        let pk = self.transfer_receiver.public_key();
        let mut out: Vec<u8> = Vec::new();
        append_bytes(&mut out, &pk);
        (STATUS_OK, out)
    }

    /// Installs the production keys that the key manager, whose public key was
    /// verified from its attestation, sent in an auth-mode envelope.
    pub fn install_verified_keys(&mut self, manager_public_key: [u8; 32], envelope: &[u8]) -> (r: (
        u8,
        Vec<u8>,
    ))
        ensures
            old(self).enclave is Some ==> r.0 == STATUS_BAD_REQUEST && r.1@ == ascii_bytes(
                "enclave already initialized"@,
            ) && *final(self) == *old(self),
            final(self).transfer_receiver == old(self).transfer_receiver,
            r.0 == STATUS_OK ==> old(self).enclave is None && r.1@.len() == 0,
            r.0 == STATUS_OK || r.0 == STATUS_BAD_REQUEST,
            r.0 == STATUS_OK ==> (auth_envelope_open(
                old(self).transfer_receiver.channel.sk@,
                manager_public_key@,
                envelope@,
            ) matches Some(bundle) && (final(self).enclave matches Some(e) && bundle.len() == 64 && e.mac_key()
                == bundle.subrange(0, 32) && e.channel_secret() == bundle.subrange(32, 64)
                && e.wf())),
            r.0 != STATUS_OK ==> final(self).enclave == old(self).enclave,
            old(self).enclave is None ==> (r.0 == STATUS_OK <==> (auth_envelope_open(
                old(self).transfer_receiver.channel.sk@,
                manager_public_key@,
                envelope@,
            ) matches Some(bundle) && bundle.len() == 64)),
            old(self).enclave is None && auth_envelope_open(
                old(self).transfer_receiver.channel.sk@,
                manager_public_key@,
                envelope@,
            ) is None ==> r.0 == STATUS_BAD_REQUEST && ascii_bytes(
                "decrypt key-manager envelope: "@,
            ).is_prefix_of(r.1@),
            old(self).enclave is None && (auth_envelope_open(
                old(self).transfer_receiver.channel.sk@,
                manager_public_key@,
                envelope@,
            ) matches Some(bundle) && bundle.len() != 64) ==> r.0 == STATUS_BAD_REQUEST && r.1@
                == ascii_bytes("key bundle must be 64 bytes"@),
    {
        if self.enclave.is_some() {
            let msg = "enclave already initialized";
            proof {
                reveal_strlit("enclave already initialized");
            }
            return bad_request(msg);
        }
        let plaintext = match self.transfer_receiver.open_auth(envelope, manager_public_key) {
            Ok(plaintext) => plaintext,
            Err(err) => {
                let prefix = "decrypt key-manager envelope: ";
                proof {
                    reveal_strlit("decrypt key-manager envelope: ");
                }
                let (status, mut out) = bad_request(prefix);
                let detail = hpke_error_text(&err);
                let ghost before = out@;
                append_bytes(&mut out, detail.as_str().as_bytes());
                assert(out@.subrange(0, before.len() as int) =~= before);
                return (status, out);
            },
        };
        let bundle = match decode_key_bundle(plaintext.as_slice()) {
            Ok(bundle) => bundle,
            Err(_) => {
                let msg = "key bundle must be 64 bytes";
                proof {
                    reveal_strlit("key bundle must be 64 bytes");
                }
                return bad_request(msg);
            },
        };
        match Enclave::new(enclave_max_count(), bundle.enc_key, bundle.hpke_receiver_key) {
            Ok(enclave) => {
                self.enclave = Some(enclave);
                (STATUS_OK, Vec::new())
            },
            Err(_) => vstd::pervasive::unreached(),
        }
    }

    pub fn public_key(&self, _payload: &[u8]) -> (r: (u8, Vec<u8>))
        ensures
            match self.enclave {
                None => not_initialized(r),
                Some(e) => r.0 == STATUS_OK && r.1@ == e.channel_public(),
            },
    {
        match &self.enclave {
            Some(enclave) => {
                let pk = enclave.public_key();
                let mut out: Vec<u8> = Vec::new();
                append_bytes(&mut out, &pk);
                (STATUS_OK, out)
            },
            None => not_initialized_response(),
        }
    }

    pub fn issue_cred(&self, payload: &[u8]) -> (r: (u8, Vec<u8>))
        requires
            self.enclave matches Some(e) ==> e.wf(),
        ensures
            self.enclave is None ==> not_initialized(r),
            r.0 == STATUS_OK ==> self.enclave is Some && r.1@.len() > 0,
            self.enclave is Some && r.0 != STATUS_OK ==> r.0 == STATUS_BAD_REQUEST && r.1@ == ascii_bytes(
                "issue_cred failed"@,
            ),
            self.enclave matches Some(e) ==> (r.0 == STATUS_OK <==> cred_request_opens(e, payload@)),
            r.0 == STATUS_OK ==> (self.enclave matches Some(e) && exists|key: Seq<u8>, cred: Seq<u8>|
                #![trigger crate::star_core::secure_channel::server::reply_carries(key, r.1@, cred)]
                crate::star_core::secure_channel::server::envelope_open(e.channel_secret(), payload@)
                    == Some(key) && crate::star_core::secure_channel::server::reply_carries(
                    key,
                    r.1@,
                    cred,
                ) && cred.len() == 64 && cred.subrange(32, 64)
                    == crate::star_core::cred::credential_code(e.mac_key(), cred.subrange(0, 32))),
    {
        let enclave = match &self.enclave {
            Some(enclave) => enclave,
            None => return not_initialized_response(),
        };
        let cred = enclave.issue_cred(payload);
        proof {
            assert(self.enclave == Some(*enclave));
            if cred@.len() > 0 {
                let (key, c) = choose|key: Seq<u8>, c: Seq<u8>|
                    #![trigger crate::star_core::secure_channel::server::reply_carries(key, cred@, c)]
                    crate::star_core::secure_channel::server::envelope_open(
                        enclave.channel_secret(),
                        payload@,
                    ) == Some(key) && crate::star_core::secure_channel::server::reply_carries(key, cred@, c)
                        && c.len() == 64 && c.subrange(32, 64) == crate::star_core::cred::credential_code(
                        enclave.mac_key(),
                        c.subrange(0, 32),
                    );
                assert(crate::star_core::secure_channel::server::reply_carries(key, cred@, c));
            }
        }
        if cred.len() == 0 {
            let msg = "issue_cred failed";
            proof {
                reveal_strlit("issue_cred failed");
            }
            return bad_request(msg);
        }
        (STATUS_OK, cred)
    }

    /// `OP_ISSUE_TOKEN`: the payload is the current period followed by the
    /// client's envelope.
    pub fn issue_token(&self, payload: &[u8]) -> (r: (u8, Vec<u8>))
        ensures
            (r.0, r.1@) == issue_token_answer(self.enclave, payload@),
    {
        if payload.len() < PERIOD_LEN {
            let msg = "issue_token missing period";
            proof {
                reveal_strlit("issue_token missing period");
            }
            return bad_request(msg);
        }
        let current_period: [u8; 8] = array_at(payload, 0);
        let cipher = &payload[PERIOD_LEN..payload.len()];
        let enclave = match &self.enclave {
            Some(enclave) => enclave,
            None => return not_initialized_response(),
        };
        match enclave.issue_token(cipher, current_period) {
            Ok(token) => (STATUS_OK, token),
            Err(_) => {
                let msg = "issue_token failed";
                proof {
                    reveal_strlit("issue_token failed");
                }
                bad_request(msg)
            },
        }
    }

    /// `OP_ATTEST`: the transfer key is attested, with no report data from
    /// the host; the quote itself is produced by the host's attestation
    /// service.
    pub fn attest(&self, payload: &[u8]) -> (r: EnclaveStep)
        ensures
            payload@.len() > 0 ==> (r matches EnclaveStep::Respond(status, body) && status == STATUS_BAD_REQUEST
                && body@ == ascii_bytes("transfer attestation does not accept host report_data"@)),
            payload@.len() == 0 ==> (r matches EnclaveStep::Attest(data) && data@ == report_data_of(
                self.transfer_receiver.channel.pk@,
            )),
    {
        if payload.len() > 0 {
            let msg = "transfer attestation does not accept host report_data";
            proof {
                reveal_strlit("transfer attestation does not accept host report_data");
            }
            let (status, body) = bad_request(msg);
            return EnclaveStep::Respond(status, body);
        }
        EnclaveStep::Attest(report_data_for_public_key(self.transfer_receiver.public_key()))
    }

    /// The answer to `OP_ATTEST` once the attestation service answered.
    pub fn finish_attest(quote: Result<Vec<u8>, String>) -> (r: (u8, Vec<u8>))
        ensures
            quote matches Ok(q) ==> r.0 == STATUS_OK && r.1@ == q@,
            quote matches Err(e) ==> r.0 == STATUS_PANIC && r.1@ == vstd::utf8::encode_utf8(e@),
    {
        match quote {
            Ok(q) => (STATUS_OK, q),
            Err(err) => {
                let bytes = err.as_str().as_bytes();
                let mut out: Vec<u8> = Vec::new();
                append_bytes(&mut out, bytes);
                (STATUS_PANIC, out)
            },
        }
    }

    pub fn one(&self, _payload: &[u8]) -> (r: (u8, Vec<u8>))
        ensures
            r.0 == STATUS_OK,
            r.1@ == Seq::new(32, |_i: int| 1u8),
    {
        let out = vec![1u8; 32];
        assert(out@ =~= Seq::new(32, |_i: int| 1u8));
        (STATUS_OK, out)
    }

    /// The operations that do not change the state.
    pub fn handle_shared(&self, op: u8, payload: &[u8]) -> (r: EnclaveStep)
        requires
            self.enclave matches Some(e) ==> e.wf(),
        ensures
            op == OP_ATTEST ==> (payload@.len() == 0 <==> r is Attest),
            op != OP_ATTEST ==> r is Respond,
            op != OP_PUBLIC_KEY && op != OP_ISSUE_CRED && op != OP_ISSUE_TOKEN && op != OP_ATTEST
                && op != OP_TRANSFER_PUBLIC_KEY && op != OP_ONE ==> (r matches EnclaveStep::Respond(
                status,
                body,
            ) && status == STATUS_BAD_REQUEST && body@ == ascii_bytes("unknown operation"@)),
            op == OP_ATTEST && payload@.len() == 0 ==> (r matches EnclaveStep::Attest(data) && data@
                == report_data_of(self.transfer_receiver.channel.pk@)),
            op == OP_ATTEST && payload@.len() > 0 ==> (r matches EnclaveStep::Respond(status, body) && status
                == STATUS_BAD_REQUEST && body@ == ascii_bytes(
                "transfer attestation does not accept host report_data"@,
            )),
            op == OP_PUBLIC_KEY && self.enclave is None ==> (r matches EnclaveStep::Respond(status, body)
                && not_initialized((status, body))),
            op == OP_PUBLIC_KEY && self.enclave is Some ==> (r matches EnclaveStep::Respond(status, body)
                && status == STATUS_OK && body@ == self.enclave->0.channel_public()),
            op == OP_TRANSFER_PUBLIC_KEY ==> (r matches EnclaveStep::Respond(status, body)
                && status == STATUS_OK && body@ == self.transfer_receiver.channel.pk@),
            op == OP_ISSUE_TOKEN ==> (r matches EnclaveStep::Respond(status, body) && (status, body@)
                == issue_token_answer(self.enclave, payload@)),
            op == OP_ONE ==> (r matches EnclaveStep::Respond(status, body) && status == STATUS_OK
                && body@ == Seq::new(32, |_i: int| 1u8)),
            op == OP_ISSUE_CRED ==> (r matches EnclaveStep::Respond(status, body) && (self.enclave is None
                ==> not_initialized((status, body))) && (status == STATUS_OK ==> self.enclave is Some
                && body@.len() > 0) && (self.enclave is Some && status != STATUS_OK ==> status
                == STATUS_BAD_REQUEST && body@ == ascii_bytes("issue_cred failed"@)) && (self.enclave matches Some(
                e,
            ) ==> (status == STATUS_OK <==> cred_request_opens(e, payload@)))),
    {
        match op {
            OP_PUBLIC_KEY => {
                let (s, b) = self.public_key(payload);
                EnclaveStep::Respond(s, b)
            },
            OP_ISSUE_CRED => {
                let (s, b) = self.issue_cred(payload);
                EnclaveStep::Respond(s, b)
            },
            OP_ISSUE_TOKEN => {
                let (s, b) = self.issue_token(payload);
                EnclaveStep::Respond(s, b)
            },
            OP_ATTEST => self.attest(payload),
            OP_TRANSFER_PUBLIC_KEY => {
                let (s, b) = self.transfer_public_key(payload);
                EnclaveStep::Respond(s, b)
            },
            OP_ONE => {
                let (s, b) = self.one(payload);
                EnclaveStep::Respond(s, b)
            },
            _ => {
                let msg = "unknown operation";
                proof {
                    reveal_strlit("unknown operation");
                }
                let (s, b) = bad_request(msg);
                EnclaveStep::Respond(s, b)
            },
        }
    }

    /// Dispatches an operation; `OP_INIT` and `OP_INSTALL_KEYS` may change
    /// the state.
    pub fn handle(&mut self, op: u8, payload: &[u8]) -> (r: EnclaveStep)
        requires
            old(self).enclave matches Some(e) ==> e.wf(),
        ensures
            op == OP_INIT ==> (r matches EnclaveStep::Respond(status, body) && (status, body@)
                == init_answer(old(self).enclave is Some, payload@)),
            op == OP_INIT && (old(self).enclave is Some || payload@.len() > 0) ==> *final(self) == *old(
                self,
            ),
            op == OP_INIT && old(self).enclave is None && payload@.len() == 0
                ==> final(self).transfer_receiver.channel.wf(),
            op != OP_INIT ==> *final(self) == *old(self),
            op == OP_INSTALL_KEYS && old(self).enclave is Some ==> (r matches EnclaveStep::Respond(status, body)
                && status == STATUS_BAD_REQUEST && body@ == ascii_bytes("enclave already initialized"@)),
            op == OP_INSTALL_KEYS && old(self).enclave is None ==> r is VerifyKeyManager,
            final(self).enclave == old(self).enclave,
            op == OP_PUBLIC_KEY && old(self).enclave is None ==> (r matches EnclaveStep::Respond(status, body)
                && not_initialized((status, body))),
            op == OP_PUBLIC_KEY && old(self).enclave is Some ==> (r matches EnclaveStep::Respond(status, body)
                && status == STATUS_OK && body@ == old(self).enclave->0.channel_public()),
            op == OP_INIT && old(self).enclave is None && payload@.len() > 0 ==> (r matches EnclaveStep::Respond(
                _,
                body,
            ) && body@ == ascii_bytes(
                "init does not accept keys; install key-manager envelope with OP_INSTALL_KEYS"@,
            )),
            op == OP_ATTEST ==> (payload@.len() == 0 <==> r is Attest),
            op == OP_ATTEST && payload@.len() == 0 ==> (r matches EnclaveStep::Attest(data) && data@
                == report_data_of(final(self).transfer_receiver.channel.pk@)),
            op == OP_ATTEST && payload@.len() > 0 ==> (r matches EnclaveStep::Respond(status, body) && status
                == STATUS_BAD_REQUEST && body@ == ascii_bytes(
                "transfer attestation does not accept host report_data"@,
            )),
            op == OP_TRANSFER_PUBLIC_KEY ==> (r matches EnclaveStep::Respond(status, body)
                && status == STATUS_OK && body@ == final(self).transfer_receiver.channel.pk@),
            op == OP_ISSUE_TOKEN ==> (r matches EnclaveStep::Respond(status, body) && (status, body@)
                == issue_token_answer(old(self).enclave, payload@)),
            op == OP_ONE ==> (r matches EnclaveStep::Respond(status, body) && status == STATUS_OK
                && body@ == Seq::new(32, |_i: int| 1u8)),
            op == OP_ISSUE_CRED ==> (r matches EnclaveStep::Respond(status, body) && (old(self).enclave is None
                ==> not_initialized((status, body))) && (status == STATUS_OK ==> old(self).enclave is Some
                && body@.len() > 0) && (old(self).enclave is Some && status != STATUS_OK ==> status
                == STATUS_BAD_REQUEST && body@ == ascii_bytes("issue_cred failed"@)) && (old(self).enclave matches Some(
                e,
            ) ==> (status == STATUS_OK <==> cred_request_opens(e, payload@)))),
            op != OP_INIT && op != OP_INSTALL_KEYS && op != OP_PUBLIC_KEY && op != OP_ISSUE_CRED && op
                != OP_ISSUE_TOKEN && op != OP_ATTEST && op != OP_TRANSFER_PUBLIC_KEY && op != OP_ONE ==> (
            r matches EnclaveStep::Respond(status, body) && status == STATUS_BAD_REQUEST && body@
                == ascii_bytes("unknown operation"@)),
    {
        match op {
            OP_INIT => {
                let (s, b) = self.init(payload);
                EnclaveStep::Respond(s, b)
            },
            OP_INSTALL_KEYS => {
                if self.enclave.is_some() {
                    let msg = "enclave already initialized";
                    proof {
                        reveal_strlit("enclave already initialized");
                    }
                    let (s, b) = bad_request(msg);
                    EnclaveStep::Respond(s, b)
                } else {
                    EnclaveStep::VerifyKeyManager
                }
            },
            _ => self.handle_shared(op, payload),
        }
    }

    /// The library entry on a host without SGX: the host passes an operation
    /// code and its input and output buffers (their contents here, their
    /// addresses and lengths as the checks see them); the call is refused with
    /// `(STATUS_BAD_REQUEST, 0)` before anything runs, or served and its answer
    /// handed back through the output buffer.
    pub fn library_entry(
        &mut self,
        op: u64,
        input_ptr: u64,
        input: &[u8],
        output_ptr: u64,
        output: &mut Vec<u8>,
        base: usize,
        size: usize,
    ) -> (r: (u64, u64))
        requires
            old(self).enclave matches Some(e) ==> e.wf(),
        ensures
            !entry_accepts(
                op,
                input_ptr,
                input@.len() as u64,
                output_ptr,
                old(output)@.len() as u64,
                base,
                size,
            ) ==> r == (STATUS_BAD_REQUEST as u64, 0u64) && final(output)@ == old(output)@
                && *final(self) == *old(self),
            entry_accepts(
                op,
                input_ptr,
                input@.len() as u64,
                output_ptr,
                old(output)@.len() as u64,
                base,
                size,
            ) ==> exists|answer: (u8, Seq<u8>)|
                #[trigger] outside_sgx_answer(*old(self), op as u8, input@, answer, *final(self))
                    && entry_outcome(answer, old(output)@, final(output)@, r),
    {
        let (op, _, _) = match entry_checks(
            op,
            input_ptr,
            input.len() as u64,
            output_ptr,
            output.len() as u64,
            base,
            size,
        ) {
            Ok(checked) => checked,
            Err(refused) => return refused,
        };
        let (status, response) = self.handle_outside_sgx(op, input);
        let r = entry_respond(status, response.as_slice(), output);
        assert(outside_sgx_answer(*old(self), op, input@, (status, response@), *self));
        r
    }

    /// Serves one call on a host without SGX, where the dispatcher's requests
    /// for an attestation quote and for the key manager's verification cannot
    /// be met.
    pub fn handle_outside_sgx(&mut self, op: u8, payload: &[u8]) -> (r: (u8, Vec<u8>))
        requires
            old(self).enclave matches Some(e) ==> e.wf(),
        ensures
            outside_sgx_answer(*old(self), op, payload@, (r.0, r.1@), *final(self)),
    {
        match self.handle(op, payload) {
            EnclaveStep::Respond(status, body) => {
                proof {
                    reveal_strlit("enclave is not initialized");
                }
                (status, body)
            },
            EnclaveStep::Attest(report_data) => {
                let r = Self::finish_attest(attest(report_data));
                proof {
                    let msg = "remote attestation requires the Fortanix SGX target"@;
                    reveal_strlit("remote attestation requires the Fortanix SGX target");
                    assert(vstd::utf8::is_ascii_chars(msg));
                    vstd::utf8::is_ascii_chars_encode_utf8(msg);
                    assert(r.1@ =~= ascii_bytes(msg));
                }
                r
            },
            EnclaveStep::VerifyKeyManager => {
                let msg = "key-manager policy is only available inside SGX";
                proof {
                    reveal_strlit("key-manager policy is only available inside SGX");
                }
                bad_request(msg)
            },
        }
    }
}

/// Offset of the algorithm identifier in an attestation key identifier
/// (`sgx_att_key_id_ext_t`).
pub const ATT_KEY_ALGORITHM_OFFSET: usize = 154;

/// The algorithm identifier of ECDSA P-256 attestation keys.
pub const SGX_QL_ALG_ECDSA_P256: u32 = 2;

/// The little-endian number of the four bytes of `bytes` at `offset`.
pub open spec fn le_u32_at(bytes: Seq<u8>, offset: int) -> Option<u32> {
    if offset + 4 <= bytes.len() {
        Some((bytes[offset] + bytes[offset + 1] * 256 + bytes[offset + 2] * 65536 + bytes[offset + 3]
            * 16777216) as u32)
    } else {
        None
    }
}

pub fn read_le_u32(bytes: &[u8], offset: usize) -> (r: Option<u32>)
    ensures
        r == le_u32_at(bytes@, offset as int),
{
    if offset > bytes.len() || bytes.len() - offset < 4 {
        return None;
    }
    Some((bytes[offset] as u32) + (bytes[offset + 1] as u32) * 256 + (bytes[offset + 2] as u32) * 65536
        + (bytes[offset + 3] as u32) * 16777216)
}

/// An attestation key identifier for ECDSA P-256.
pub open spec fn is_ecdsa_p256_key_id(id: Seq<u8>) -> bool {
    le_u32_at(id, ATT_KEY_ALGORITHM_OFFSET as int) == Some(SGX_QL_ALG_ECDSA_P256)
}

/// The first ECDSA P-256 key identifier among those the attestation service
/// offers.
pub fn select_ecdsa_p256_key_id(ids: Vec<Vec<u8>>) -> (r: Option<Vec<u8>>)
    ensures
        match r {
            Some(id) => exists|k: int|
                0 <= k < ids@.len() && ids@[k]@ == id@ && is_ecdsa_p256_key_id(#[trigger] ids@[k]@)
                    && forall|j: int| 0 <= j < k ==> !is_ecdsa_p256_key_id(#[trigger] ids@[j]@),
            None => forall|k: int| 0 <= k < ids@.len() ==> !is_ecdsa_p256_key_id(#[trigger] ids@[k]@),
        },
{
    let mut i: usize = 0;
    while i < ids.len()
        invariant
            0 <= i <= ids@.len(),
            forall|j: int| 0 <= j < i ==> !is_ecdsa_p256_key_id(#[trigger] ids@[j]@),
        decreases ids@.len() - i,
    {
        if read_le_u32(ids[i].as_slice(), ATT_KEY_ALGORITHM_OFFSET) == Some(SGX_QL_ALG_ECDSA_P256) {
            let id = ids[i].clone();
            assert(ids@[i as int]@ == id@);
            return Some(id);
        }
        i = i + 1;
    }
    None
}

/// The largest buffer the host may pass to the enclave.
pub const MAX_PAYLOAD_LEN: usize = 16777216;

/// A buffer length passed by the host, refused with `STATUS_BAD_REQUEST`
/// above `MAX_PAYLOAD_LEN`.
pub fn checked_user_len(len: u64) -> (r: Result<usize, u8>)
    ensures
        len <= MAX_PAYLOAD_LEN ==> r == Ok::<usize, u8>(len as usize),
        len > MAX_PAYLOAD_LEN ==> r == Err::<usize, u8>(STATUS_BAD_REQUEST),
{
    if len > 16777216u64 {
        return Err(STATUS_BAD_REQUEST);
    }
    Ok(len as usize)
}

/// The last address of the enclave that starts at `base` and spans `size`
/// bytes (the base itself for an empty enclave), when it is addressable.
pub open spec fn enclave_last(base: usize, size: usize) -> Option<int> {
    let last = if size == 0 { base as int } else { base + size - 1 };
    if last <= usize::MAX { Some(last) } else { None }
}

/// A host buffer `[start, start + len)` lies wholly outside the enclave
/// `[base, base + size)`; an empty buffer always does, and a buffer or an
/// enclave that runs past the end of the address space never does.
pub open spec fn outside_enclave(start: usize, len: usize, base: usize, size: usize) -> bool {
    if len == 0 {
        true
    } else if start + len - 1 > usize::MAX {
        false
    } else {
        match enclave_last(base, size) {
            None => false,
            Some(last) => start + len - 1 < base || start > last,
        }
    }
}

/// Whether a host buffer lies outside the enclave's memory.
pub fn is_user_range(start: usize, len: usize, base: usize, enclave_size: usize) -> (r: bool)
    ensures
        r == outside_enclave(start, len, base, enclave_size),
{
    if len == 0 {
        return true;
    }
    let end = match start.checked_add(len - 1) {
        Some(end) => end,
        None => return false,
    };
    let enclave_end = match base.checked_add(enclave_size.saturating_sub(1)) {
        Some(e) => e,
        None => return false,
    };
    end < base || start > enclave_end
}

/// The status and length that the library entry returns for an answer of
/// `response_len` bytes to a host buffer of `output_len` bytes: a buffer too
/// small is reported with the length it needs, and nothing is copied.
pub fn entry_result(status: u8, response_len: usize, output_len: usize) -> (r: (u64, u64))
    ensures
        response_len > output_len ==> r == (STATUS_BUFFER_TOO_SMALL as u64, response_len as u64),
        response_len <= output_len ==> r == (status as u64, response_len as u64),
{
    if response_len > output_len {
        return (STATUS_BUFFER_TOO_SMALL as u64, response_len as u64);
    }
    (status as u64, response_len as u64)
}

/// The operation code the host passes, refused with `STATUS_BAD_REQUEST`
/// when it is not a byte.
pub fn entry_op(op: u64) -> (r: Result<u8, u8>)
    ensures
        op <= 255 ==> r == Ok::<u8, u8>(op as u8),
        op > 255 ==> r == Err::<u8, u8>(STATUS_BAD_REQUEST),
{
    if op > 255 {
        return Err(STATUS_BAD_REQUEST);
    }
    Ok(op as u8)
}

/// A host buffer that the library entry accepts: at most `MAX_PAYLOAD_LEN`
/// bytes and, unless empty, at a nonzero address and wholly outside the
/// enclave's memory.
pub open spec fn host_buffer_ok(ptr: u64, len: u64, base: usize, size: usize) -> bool {
    &&& len <= MAX_PAYLOAD_LEN
    &&& len == 0 || (ptr != 0 && ptr <= usize::MAX && outside_enclave(
        ptr as usize,
        len as usize,
        base,
        size,
    ))
}

/// The length of a host buffer, or `STATUS_BAD_REQUEST` for one the entry
/// refuses.
pub fn host_buffer(ptr: u64, len: u64, base: usize, size: usize) -> (r: Result<usize, u8>)
    ensures
        host_buffer_ok(ptr, len, base, size) ==> r == Ok::<usize, u8>(len as usize),
        !host_buffer_ok(ptr, len, base, size) ==> r == Err::<usize, u8>(STATUS_BAD_REQUEST),
{
    let n = match checked_user_len(len) {
        Ok(n) => n,
        Err(status) => return Err(status),
    };
    if n == 0 {
        return Ok(0);
    }
    if ptr == 0 || ptr > usize::MAX as u64 {
        return Err(STATUS_BAD_REQUEST);
    }
    if !is_user_range(ptr as usize, n, base, size) {
        return Err(STATUS_BAD_REQUEST);
    }
    Ok(n)
}

/// The library entry goes on to dispatch only for an operation code that is
/// a byte and two host buffers that it accepts.
pub open spec fn entry_accepts(
    op: u64,
    input_ptr: u64,
    input_len: u64,
    output_ptr: u64,
    output_len: u64,
    base: usize,
    size: usize,
) -> bool {
    &&& op <= 255
    &&& host_buffer_ok(input_ptr, input_len, base, size)
    &&& host_buffer_ok(output_ptr, output_len, base, size)
}

/// The checks of the library entry before it dispatches: the operation and
/// the two buffer lengths, or the `(STATUS_BAD_REQUEST, 0)` it returns.
pub fn entry_checks(
    op: u64,
    input_ptr: u64,
    input_len: u64,
    output_ptr: u64,
    output_len: u64,
    base: usize,
    size: usize,
) -> (r: Result<(u8, usize, usize), (u64, u64)>)
    ensures
        entry_accepts(op, input_ptr, input_len, output_ptr, output_len, base, size) ==> r == Ok::<
            (u8, usize, usize),
            (u64, u64),
        >((op as u8, input_len as usize, output_len as usize)),
        !entry_accepts(op, input_ptr, input_len, output_ptr, output_len, base, size) ==> r == Err::<
            (u8, usize, usize),
            (u64, u64),
        >((STATUS_BAD_REQUEST as u64, 0u64)),
{
    let op = match entry_op(op) {
        Ok(op) => op,
        Err(status) => return Err((status as u64, 0)),
    };
    let input_len = match host_buffer(input_ptr, input_len, base, size) {
        Ok(n) => n,
        Err(status) => return Err((status as u64, 0)),
    };
    let output_len = match host_buffer(output_ptr, output_len, base, size) {
        Ok(n) => n,
        Err(status) => return Err((status as u64, 0)),
    };
    Ok((op, input_len, output_len))
}

/// What the library entry returns and leaves in the host's output buffer
/// (from `before` to `after`) for the dispatcher's `answer`: an answer longer
/// than the buffer is reported with its length and nothing is written;
/// otherwise it is copied to the front of the buffer, the rest untouched.
pub open spec fn entry_outcome(answer: (u8, Seq<u8>), before: Seq<u8>, after: Seq<u8>, r: (u64, u64)) -> bool {
    if answer.1.len() > before.len() {
        r == (STATUS_BUFFER_TOO_SMALL as u64, answer.1.len() as u64) && after == before
    } else {
        r == (answer.0 as u64, answer.1.len() as u64) && after == answer.1 + before.subrange(
            answer.1.len() as int,
            before.len() as int,
        )
    }
}

/// Hands the dispatcher's answer back through the host's output buffer.
pub fn entry_respond(status: u8, response: &[u8], output: &mut Vec<u8>) -> (r: (u64, u64))
    ensures
        entry_outcome((status, response@), old(output)@, final(output)@, r),
{
    let r = entry_result(status, response.len(), output.len());
    if response.len() > output.len() {
        return r;
    }
    let mut i: usize = 0;
    while i < response.len()
        invariant
            0 <= i <= response@.len(),
            response@.len() <= old(output)@.len(),
            output@.len() == old(output)@.len(),
            forall|k: int| 0 <= k < i ==> output@[k] == response@[k],
            forall|k: int| i <= k < output@.len() ==> output@[k] == old(output)@[k],
        decreases response@.len() - i,
    {
        output.set(i, response[i]);
        i = i + 1;
    }
    assert(output@ =~= response@ + old(output)@.subrange(response@.len() as int, old(output)@.len() as int));
    r
}

/// An operation that changes the enclave's state, and so runs alone.
pub open spec fn is_exclusive_op(op: u8) -> bool {
    op == OP_INIT || op == OP_INSTALL_KEYS
}

pub fn exclusive_op(op: u8) -> (r: bool)
    ensures
        r == is_exclusive_op(op),
{
    op == OP_INIT || op == OP_INSTALL_KEYS
}

/// A measurement the enclave embeds for a peer, when it embeds one: 32 bytes
/// written as hex.
pub fn optional_embedded_measurement(value: Option<&str>, name: &str) -> (r: Result<
    Option<[u8; 32]>,
    String,
>)
    ensures
        match value {
            None => r == Ok::<Option<[u8; 32]>, String>(None),
            Some(v) => match parse_hex(v@, 32) {
                Some(b) => r matches Ok(Some(m)) && m@ == b,
                None => r is Err,
            },
        },
{
    match value {
        None => Ok(None),
        Some(v) => match parse_hex_array::<32>(v, name) {
            Ok(m) => Ok(Some(m)),
            Err(e) => Err(e),
        },
    }
}

/// The message when no peer identity is embedded.
pub open spec fn no_peer_identity_message(mrenclave_name: Seq<char>, mrsigner_name: Seq<char>) -> Seq<
    char,
> {
    mrenclave_name + ", "@ + mrsigner_name
        + ", or STAR_TRUST_SAME_SIGNER_ENCLAVES must be embedded for peer trust"@
}

/// The peer identity an enclave trusts: the embedded MRENCLAVE and MRSIGNER
/// measurements, or, when neither is embedded and same-signer trust is on,
/// this enclave's own signer. Trusting no one is an error.
pub fn trusted_peer_identity(
    mrenclave: Option<&str>,
    mrenclave_name: &str,
    mrsigner: Option<&str>,
    mrsigner_name: &str,
    same_signer: Option<&str>,
    same_signer_fallback: Option<&str>,
    self_mrsigner: [u8; 32],
) -> (r: Result<(Option<[u8; 32]>, Option<[u8; 32]>), String>)
    ensures
        mrenclave matches Some(v) && parse_hex(v@, 32) is None ==> r is Err,
        mrenclave matches None || parse_hex(mrenclave->0@, 32) is Some ==> (
        mrsigner matches Some(v) && parse_hex(v@, 32) is None ==> r is Err),
        r matches Ok((e, s)) ==> {
            &&& (e matches Some(m) ==> mrenclave matches Some(v) && parse_hex(v@, 32) == Some(m@))
            &&& (mrenclave is None ==> e is None)
            &&& (mrsigner matches Some(v) ==> s matches Some(m) && parse_hex(v@, 32) == Some(m@))
            &&& (mrsigner is None && mrenclave is None ==> s == Some(self_mrsigner)
                && policy_flag(first_set(same_signer, same_signer_fallback), false) == Some(true))
            &&& (mrsigner is None && mrenclave is Some ==> s is None)
        },
        ({
            let e_ok = mrenclave matches None || parse_hex(mrenclave->0@, 32) is Some;
            let s_ok = mrsigner matches None || parse_hex(mrsigner->0@, 32) is Some;
            e_ok && s_ok && (mrenclave is Some || mrsigner is Some) ==> r is Ok
        }),
        ({
            let flag = policy_flag(first_set(same_signer, same_signer_fallback), false);
            mrenclave is None && mrsigner is None ==> match flag {
                Some(true) => r == Ok::<(Option<[u8; 32]>, Option<[u8; 32]>), String>(
                    (None, Some(self_mrsigner)),
                ),
                Some(false) => r matches Err(m) && m@ == no_peer_identity_message(
                    mrenclave_name@,
                    mrsigner_name@,
                ),
                None => r is Err,
            }
        }),
{
    let expected_mrenclave = match optional_embedded_measurement(mrenclave, mrenclave_name) {
        Ok(m) => m,
        Err(e) => return Err(e),
    };
    let mut expected_mrsigner = match optional_embedded_measurement(mrsigner, mrsigner_name) {
        Ok(m) => m,
        Err(e) => return Err(e),
    };
    if expected_mrenclave.is_none() && expected_mrsigner.is_none() {
        let same = match embedded_allow_same_signer(same_signer, same_signer_fallback) {
            Ok(b) => b,
            Err(e) => return Err(e),
        };
        if same {
            expected_mrsigner = Some(self_mrsigner);
        }
    }
    if expected_mrenclave.is_none() && expected_mrsigner.is_none() {
        let mut msg = String::from_str(mrenclave_name);
        msg.append(", ");
        msg.append(mrsigner_name);
        msg.append(", or STAR_TRUST_SAME_SIGNER_ENCLAVES must be embedded for peer trust");
        return Err(msg);
    }
    Ok((expected_mrenclave, expected_mrsigner))
}

} // verus!
