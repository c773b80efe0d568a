use vstd::prelude::*;
use vstd::string::*;

use crate::client_proxy::{parse_unsigned, parse_unsigned_u64};
use crate::text::{decimal, decimal_string};

verus! {

/// Length of the data that an attestation report carries.
pub const ATTESTATION_REPORT_DATA_LEN: usize = 64;

/// Length of an enclave's public key.
pub const ENCLAVE_PUBLIC_KEY_LEN: usize = 32;

/// The operations of the enclave library.
pub const OP_INIT: u64 = 0;
pub const OP_PUBLIC_KEY: u64 = 1;
pub const OP_ISSUE_CRED: u64 = 2;
pub const OP_ISSUE_TOKEN: u64 = 3;
pub const OP_ATTEST: u64 = 4;
pub const OP_TRANSFER_PUBLIC_KEY: u64 = 5;
pub const OP_INSTALL_KEYS: u64 = 6;
pub const OP_ONE: u64 = 7;

/// The response buffer first offered to each operation.
pub open spec fn response_capacity(op: u64) -> usize {
    if op == OP_INIT {
        0
    } else if op == OP_PUBLIC_KEY {
        32
    } else if op == OP_ISSUE_CRED {
        128
    } else if op == OP_ISSUE_TOKEN {
        32
    } else if op == OP_ATTEST {
        32
    } else if op == OP_TRANSFER_PUBLIC_KEY {
        32
    } else if op == OP_INSTALL_KEYS {
        0
    } else if op == OP_ONE {
        32
    } else {
        1024
    }
}

pub fn initial_response_capacity(op: u64, payload_len: usize) -> (r: usize)
    ensures
        r == response_capacity(op),
{
    match op {
        OP_INIT => 0,
        OP_PUBLIC_KEY => 32,
        OP_ISSUE_CRED => 128,
        OP_ISSUE_TOKEN => 32,
        OP_ATTEST => 32,
        OP_TRANSFER_PUBLIC_KEY => 32,
        OP_INSTALL_KEYS => 0,
        OP_ONE => 32,
        _ => 1024,
    }
}

/// `std::io::Error`, carried through as an opaque value.
pub use crate::filter_box::base::ExIoError;

/// What can go wrong when building, loading or calling an enclave.
#[derive(Debug)]
pub enum EnclaveError {
    Build(std::io::Error),
    BuildFailed(String),
    InvalidPublicKeyLength { len: usize },
    InvalidSealedKeys(String),
    Library(String),
    KeyManagerService(String),
    Dcap(String),
    Remote { status: u64, payload: Vec<u8> },
    ResponseTooLarge { len: usize },
    Storage(std::io::Error),
}

/// The payload of an `OP_ISSUE_TOKEN` call: the current period followed by the
/// client's envelope.
pub fn issue_token_payload(cipher: &[u8], current_period: [u8; 8]) -> (r: Vec<u8>)
    ensures
        r@ == current_period@ + cipher@,
{
    let mut payload: Vec<u8> = Vec::new();
    crate::ct::bytes::append_bytes(&mut payload, &current_period);
    crate::ct::bytes::append_bytes(&mut payload, cipher);
    payload
}

/// A response of an enclave call read as a public key.
pub fn public_key_from_response(response: &[u8]) -> (r: Result<[u8; 32], EnclaveError>)
    ensures
        response@.len() == 32 <==> r is Ok,
        r matches Ok(k) ==> k@ == response@,
        r matches Err(e) ==> e matches EnclaveError::InvalidPublicKeyLength { len } && len
            == response@.len(),
{
    if response.len() != ENCLAVE_PUBLIC_KEY_LEN {
        return Err(EnclaveError::InvalidPublicKeyLength { len: response.len() });
    }
    let key: [u8; 32] = crate::ct::bytes::array_at(response, 0);
    assert(key@ =~= response@);
    Ok(key)
}

/// A permit was taken: one fewer is free.
pub open spec fn acquired(before: PermitState, after: PermitState) -> bool {
    after.total == before.total && after.available == before.available - 1
}

/// A permit was given back: one more is free when some was taken (and a
/// waiter is woken), none changes otherwise.
pub open spec fn released(before: PermitState, woke: bool, after: PermitState) -> bool {
    &&& after.total == before.total
    &&& woke == (before.available < before.total)
    &&& after.available == (if woke {
        before.available + 1
    } else {
        before.available as int
    })
}

/// How many concurrent calls into the enclave pool are allowed, and how many
/// are free.
pub struct PermitState {
    pub available: usize,
    pub total: usize,
}

impl PermitState {
    pub open spec fn wf(&self) -> bool {
        self.available <= self.total
    }

    /// A pool of `min(num, threads)` permits, all free.
    pub fn new(num: u8, threads: usize) -> (r: Self)
        ensures
            r.wf(),
            r.total == if (num as usize) < threads { num as usize } else { threads },
            r.available == r.total,
    {
        let total = if (num as usize) < threads { num as usize } else { threads };
        PermitState { available: total, total }
    }

    /// Takes a permit when one is free. `None` when the pool is empty for good
    /// (no permits at all); `Some(false)` when the caller has to wait.
    pub fn try_acquire(&mut self) -> (r: Option<bool>)
        requires
            old(self).wf(),
        ensures
            final(self).wf(),
            final(self).total == old(self).total,
            old(self).total == 0 ==> r is None && *final(self) == *old(self),
            old(self).total > 0 && old(self).available == 0 ==> r == Some(false) && *final(self) == *old(self),
            old(self).total > 0 && old(self).available > 0 ==> r == Some(true) && acquired(
                *old(self),
                *final(self),
            ),
    {
        if self.total == 0 {
            return None;
        }
        if self.available == 0 {
            return Some(false);
        }
        self.available = self.available - 1;
        Some(true)
    }

    /// Gives a permit back; returns whether a waiter is to be woken.
    pub fn release(&mut self) -> (r: bool)
        requires
            old(self).wf(),
        ensures
            final(self).wf(),
            released(*old(self), r, *final(self)),
    {
        if self.available < self.total {
            self.available = self.available + 1;
            true
        } else {
            false
        }
    }
}

/// The largest response an enclave call may ask a buffer for.
pub const MAX_RESPONSE_LEN: usize = 16777216;

/// The status with which the enclave asks for a larger buffer.
pub const LIBRARY_STATUS_BUFFER_TOO_SMALL: u64 = 5;

/// The status of a successful enclave call.
pub const LIBRARY_STATUS_OK: u64 = 0;

/// What the host does after one call into the enclave library.
pub enum LibraryStep {
    /// Call again with a buffer of this many bytes.
    Retry(usize),
    /// The call is over.
    Done(Result<Vec<u8>, EnclaveError>),
}

/// The decision after the enclave library answered a call with `status` and
/// `len` into the buffer `output`: a buffer too small is grown to the length
/// asked for (up to `MAX_RESPONSE_LEN`) and the call repeated; otherwise the
/// answer is the first `len` bytes of the buffer, an error when the status is
/// not `OK`, and a length beyond the buffer is refused.
pub fn library_call_step(status: u64, len: u64, output: Vec<u8>) -> (r: LibraryStep)
    ensures
        len > usize::MAX ==> (r matches LibraryStep::Done(Err(EnclaveError::ResponseTooLarge { len: l }))
            && l == usize::MAX),
        len <= usize::MAX && status == LIBRARY_STATUS_BUFFER_TOO_SMALL ==> if len > MAX_RESPONSE_LEN {
            r matches LibraryStep::Done(Err(EnclaveError::ResponseTooLarge { len: l })) && l == len
        } else {
            r matches LibraryStep::Retry(n) && n == len
        },
        len <= usize::MAX && status != LIBRARY_STATUS_BUFFER_TOO_SMALL ==> if len > output@.len() {
            r matches LibraryStep::Done(Err(EnclaveError::ResponseTooLarge { len: l })) && l == len
        } else if status == LIBRARY_STATUS_OK {
            r matches LibraryStep::Done(Ok(v)) && v@ == output@.subrange(0, len as int)
        } else {
            r matches LibraryStep::Done(Err(EnclaveError::Remote { status: s, payload: p })) && s == status
                && p@ == output@.subrange(0, len as int)
        },
{
    if len > usize::MAX as u64 {
        return LibraryStep::Done(Err(EnclaveError::ResponseTooLarge { len: usize::MAX }));
    }
    let len = len as usize;
    if status == LIBRARY_STATUS_BUFFER_TOO_SMALL {
        if len > MAX_RESPONSE_LEN {
            return LibraryStep::Done(Err(EnclaveError::ResponseTooLarge { len }));
        }
        return LibraryStep::Retry(len);
    }
    if len > output.len() {
        return LibraryStep::Done(Err(EnclaveError::ResponseTooLarge { len }));
    }
    let mut output = output;
    output.truncate(len);
    if status == LIBRARY_STATUS_OK {
        return LibraryStep::Done(Ok(output));
    }
    LibraryStep::Done(Err(EnclaveError::Remote { status, payload: output }))
}

/// The number of threads the enclaves get: the setting when it is a positive
/// number, `default` otherwise.
pub fn thread_count(setting: Option<&str>, default: usize) -> (r: usize)
    ensures
        match setting {
            Some(s) => match parse_unsigned(s@, usize::MAX as int) {
                Some(n) if n > 0 => r == n,
                _ => r == default,
            },
            None => r == default,
        },
{
    match setting {
        Some(s) => match parse_unsigned_u64(s, usize::MAX as u64) {
            Some(n) => {
                if n > 0 {
                    n as usize
                } else {
                    default
                }
            },
            None => default,
        },
        None => default,
    }
}

/// `std::io::Error::to_string`: the error's message (nothing is claimed of
/// its text).
#[verifier::external_body]
fn io_error_text(err: &std::io::Error) -> (r: String) {
    err.to_string()
}

impl EnclaveError {
    /// The error's message (what `Display` shows).
    pub fn message(&self) -> (r: String)
        ensures
            match self {
                EnclaveError::BuildFailed(st) => r@ == "enclave build failed: "@ + st@,
                EnclaveError::InvalidPublicKeyLength { len } => r@
                    == "enclave returned public key with invalid length "@ + decimal(*len as nat),
                EnclaveError::InvalidSealedKeys(e) => r@ == "invalid sealed keys: "@ + e@,
                EnclaveError::Library(e) => r@ == "enclave library call failed: "@ + e@,
                EnclaveError::KeyManagerService(e) => r@ == "key-manager service failed: "@ + e@,
                EnclaveError::Dcap(e) => r@ == "DCAP evidence failed: "@ + e@,
                EnclaveError::Remote { status, payload } => r@ == "enclave returned status "@ + decimal(
                    *status as nat,
                ) + " with "@ + decimal(payload@.len()) + " bytes"@,
                EnclaveError::ResponseTooLarge { len } => r@ == "enclave response is too large: "@
                    + decimal(*len as nat),
                EnclaveError::Build(_) => r@.len() >= "enclave build failed to start: "@.len()
                    && r@.subrange(0, "enclave build failed to start: "@.len() as int)
                    == "enclave build failed to start: "@,
                EnclaveError::Storage(_) => r@.len() >= "sealed key storage failed: "@.len()
                    && r@.subrange(0, "sealed key storage failed: "@.len() as int)
                    == "sealed key storage failed: "@,
            },
    {
        match self {
            EnclaveError::Build(err) => {
                let mut out = String::from_str("enclave build failed to start: ");
                let detail = io_error_text(err);
                out.append(detail.as_str());
                out
            },
            EnclaveError::BuildFailed(st) => {
                let mut out = String::from_str("enclave build failed: ");
                out.append(st.as_str());
                out
            },
            EnclaveError::InvalidPublicKeyLength { len } => {
                let mut out = String::from_str("enclave returned public key with invalid length ");
                let n = decimal_string(*len as u64);
                out.append(n.as_str());
                out
            },
            EnclaveError::InvalidSealedKeys(e) => {
                let mut out = String::from_str("invalid sealed keys: ");
                out.append(e.as_str());
                out
            },
            EnclaveError::Library(e) => {
                let mut out = String::from_str("enclave library call failed: ");
                out.append(e.as_str());
                out
            },
            EnclaveError::KeyManagerService(e) => {
                let mut out = String::from_str("key-manager service failed: ");
                out.append(e.as_str());
                out
            },
            EnclaveError::Dcap(e) => {
                let mut out = String::from_str("DCAP evidence failed: ");
                out.append(e.as_str());
                out
            },
            EnclaveError::Remote { status, payload } => {
                let mut out = String::from_str("enclave returned status ");
                let st = decimal_string(*status);
                out.append(st.as_str());
                out.append(" with ");
                let n = decimal_string(payload.len() as u64);
                out.append(n.as_str());
                out.append(" bytes");
                out
            },
            EnclaveError::ResponseTooLarge { len } => {
                let mut out = String::from_str("enclave response is too large: ");
                let n = decimal_string(*len as u64);
                out.append(n.as_str());
                out
            },
            EnclaveError::Storage(err) => {
                let mut out = String::from_str("sealed key storage failed: ");
                let detail = io_error_text(err);
                out.append(detail.as_str());
                out
            },
        }
    }

    /// The underlying I/O error, for the two kinds that carry one.
    pub fn source(&self) -> (r: Option<&std::io::Error>)
        ensures
            match self {
                EnclaveError::Build(e) => r == Some(e),
                EnclaveError::Storage(e) => r == Some(e),
                _ => r is None,
            },
    {
        match self {
            EnclaveError::Build(e) => Some(e),
            EnclaveError::Storage(e) => Some(e),
            _ => None,
        }
    }
}

} // verus!
