//! What the server decides at startup and per request outside the filter: the
//! attestation lines it prints, the upstream's TLS name, whether it serves
//! TLS, and the preflight requests it answers itself.

use vstd::prelude::*;
use vstd::string::*;

use crate::text::{chars_of, str_equals};
use crate::tools::input::{base64_url_encode, url_safe_encode};

verus! {

/// One line of the startup attestation: `NAME=` and the value in URL-safe
/// base64.
pub open spec fn attestation_line(name: Seq<char>, value: Seq<u8>) -> Seq<char> {
    name + "="@ + base64_url_encode(value)
}

fn line(name: &str, value: &[u8]) -> (r: String)
    ensures
        r@ == attestation_line(name@, value@),
{
    let mut out = String::from_str(name);
    proof {
        reveal_strlit("=");
    }
    out.append("=");
    let encoded = url_safe_encode(value);
    out.append(encoded.as_str());
    out
}

/// The keys and evidence a server prints at startup, for its clients and
/// auditors to check against.
pub struct StartupAttestation<'a> {
    pub public_key: [u8; 32],
    pub key_manager_quote: &'a [u8],
    pub filter_quote: &'a [u8],
    pub issue_quote: &'a [u8],
    pub filter_evidence_for_key_manager: &'a [u8],
    pub issue_evidence_for_key_manager: &'a [u8],
    pub key_manager_evidence_for_filter: &'a [u8],
    pub key_manager_evidence_for_issue: &'a [u8],
}

impl<'a> StartupAttestation<'a> {
    /// The lines to print: the public key, the key manager's quote (under two
    /// names), the transfer quotes of both enclaves and the DCAP evidence each
    /// side checked of the other.
    pub fn lines(&self) -> (r: Vec<String>)
        ensures
            r@.len() == 9,
            r@[0]@ == attestation_line("STAR_ATTESTATION_PUBLIC_KEY_BASE64"@, self.public_key@),
            r@[1]@ == attestation_line("STAR_ATTESTATION_QUOTE_BASE64"@, self.key_manager_quote@),
            r@[2]@ == attestation_line("STAR_KEY_MANAGER_QUOTE_BASE64"@, self.key_manager_quote@),
            r@[3]@ == attestation_line(
                "STAR_FILTER_ENCLAVE_TRANSFER_QUOTE_BASE64"@,
                self.filter_quote@,
            ),
            r@[4]@ == attestation_line("STAR_ISSUE_ENCLAVE_TRANSFER_QUOTE_BASE64"@, self.issue_quote@),
            r@[5]@ == attestation_line(
                "STAR_FILTER_ENCLAVE_DCAP_EVIDENCE_FOR_KEY_MANAGER_BASE64"@,
                self.filter_evidence_for_key_manager@,
            ),
            r@[6]@ == attestation_line(
                "STAR_ISSUE_ENCLAVE_DCAP_EVIDENCE_FOR_KEY_MANAGER_BASE64"@,
                self.issue_evidence_for_key_manager@,
            ),
            r@[7]@ == attestation_line(
                "STAR_KEY_MANAGER_DCAP_EVIDENCE_FOR_FILTER_ENCLAVE_BASE64"@,
                self.key_manager_evidence_for_filter@,
            ),
            r@[8]@ == attestation_line(
                "STAR_KEY_MANAGER_DCAP_EVIDENCE_FOR_ISSUE_ENCLAVE_BASE64"@,
                self.key_manager_evidence_for_issue@,
            ),
    {
        let mut out: Vec<String> = Vec::new();
        out.push(line("STAR_ATTESTATION_PUBLIC_KEY_BASE64", &self.public_key));
        out.push(line("STAR_ATTESTATION_QUOTE_BASE64", self.key_manager_quote));
        out.push(line("STAR_KEY_MANAGER_QUOTE_BASE64", self.key_manager_quote));
        out.push(line("STAR_FILTER_ENCLAVE_TRANSFER_QUOTE_BASE64", self.filter_quote));
        out.push(line("STAR_ISSUE_ENCLAVE_TRANSFER_QUOTE_BASE64", self.issue_quote));
        out.push(
            line(
                "STAR_FILTER_ENCLAVE_DCAP_EVIDENCE_FOR_KEY_MANAGER_BASE64",
                self.filter_evidence_for_key_manager,
            ),
        );
        out.push(
            line(
                "STAR_ISSUE_ENCLAVE_DCAP_EVIDENCE_FOR_KEY_MANAGER_BASE64",
                self.issue_evidence_for_key_manager,
            ),
        );
        out.push(
            line(
                "STAR_KEY_MANAGER_DCAP_EVIDENCE_FOR_FILTER_ENCLAVE_BASE64",
                self.key_manager_evidence_for_filter,
            ),
        );
        out.push(
            line(
                "STAR_KEY_MANAGER_DCAP_EVIDENCE_FOR_ISSUE_ENCLAVE_BASE64",
                self.key_manager_evidence_for_issue,
            ),
        );
        out
    }
}

/// The upstream's TLS server name: its address up to the first `:`.
pub open spec fn host_of(addr: Seq<char>) -> Seq<char> {
    if exists|k: int| 0 <= k < addr.len() && addr[k] == ':' && forall|j: int| 0 <= j < k ==> addr[j] != ':' {
        addr.subrange(
            0,
            choose|k: int| 0 <= k < addr.len() && addr[k] == ':' && forall|j: int| 0 <= j < k ==> addr[j] != ':',
        )
    } else {
        addr
    }
}

pub fn upstream_sni(upstream_addr: &str) -> (r: String)
    ensures
        r@ == host_of(upstream_addr@),
{
    let chars = chars_of(upstream_addr);
    let n = chars.len();
    let mut k: usize = 0;
    while k < n
        invariant
            n == chars@.len(),
            chars@ == upstream_addr@,
            0 <= k <= n,
            forall|j: int| 0 <= j < k ==> chars@[j] != ':',
        decreases n - k,
    {
        if chars[k] == ':' {
            proof {
                let c = choose|c: int|
                    0 <= c < chars@.len() && chars@[c] == ':' && forall|j: int| 0 <= j < c ==> chars@[j] != ':';
                assert(chars@[k as int] == ':');
                if c > k {
                    assert(chars@[k as int] != ':');
                }
            }
            return String::from_str(upstream_addr.substring_char(0, k));
        }
        k = k + 1;
    }
    String::from_str(upstream_addr)
}

/// The server speaks TLS when both a certificate and a key path are set.
pub fn use_tls(cert_path: &str, key_path: &str) -> (r: bool)
    ensures
        r == (cert_path@.len() > 0 && key_path@.len() > 0),
{
    cert_path.unicode_len() > 0 && key_path.unicode_len() > 0
}

/// The status the proxy answers a request with before any upstream is
/// involved: `204` to an `OPTIONS` preflight.
pub fn early_response(method: &str) -> (r: Option<u16>)
    ensures
        r == (if method@ == "OPTIONS"@ {
            Some(204u16)
        } else {
            None
        }),
{
    if str_equals(method, "OPTIONS") {
        Some(204)
    } else {
        None
    }
}

} // verus!
