//! The client-side proxy: the HTTP header rewriting it applies, the CORS
//! preflight it answers itself, and the per-period budget of token requests.

use vstd::prelude::*;
use vstd::string::*;

use crate::ct::bytes::append_bytes;
use crate::text::{chars_of, utf8_text};

verus! {

/// The TLS extension type that carries the token request.
pub const STAR_TLS_EXTENSION_TYPE: u16 = 65280;

/// The largest request or response head the proxy reads.
pub const MAX_HEADER_SIZE: usize = 65536;

/// Where to listen, where the STAR API is, and the upstream to reach.
#[derive(Clone, Debug)]
pub struct ProxyConfig {
    pub listen_addr: String,
    pub api_base: String,
    pub upstream_host: String,
    pub upstream_port: u16,
    pub upstream_sni: String,
    pub insecure_tls: bool,
    pub max_count: u64,
}

/// `s` holds the four bytes `\r\n\r\n` at `k`.
pub open spec fn blank_line_at(s: Seq<u8>, k: int) -> bool {
    0 <= k && k + 4 <= s.len() && s[k] == 13u8 && s[k + 1] == 10u8 && s[k + 2] == 13u8 && s[k + 3]
        == 10u8
}

/// The length of the head of a message: up to and including its first blank
/// line `\r\n\r\n`.
pub open spec fn header_end(s: Seq<u8>) -> Option<int> {
    if exists|k: int| blank_line_at(s, k) && forall|j: int| 0 <= j < k ==> !blank_line_at(s, j) {
        let k = choose|k: int| blank_line_at(s, k) && forall|j: int| 0 <= j < k ==> !blank_line_at(s, j);
        Some(k + 4)
    } else {
        None
    }
}

pub fn find_header_end(buf: &[u8]) -> (r: Option<usize>)
    ensures
        match r {
            Some(e) => header_end(buf@) == Some(e as int),
            None => header_end(buf@) is None,
        },
{
    if buf.len() < 4 {
        proof {
            assert forall|c: int| !(blank_line_at(buf@, c) && forall|j: int| 0 <= j < c ==> !blank_line_at(buf@, j)) by {}
        }
        return None;
    }
    let mut k: usize = 0;
    while k <= buf.len() - 4
        invariant
            buf@.len() >= 4,
            k <= buf@.len() - 3,
            forall|j: int| 0 <= j < k ==> !blank_line_at(buf@, j),
        decreases buf@.len() - k,
    {
        if buf[k] == 13 && buf[k + 1] == 10 && buf[k + 2] == 13 && buf[k + 3] == 10 {
            proof {
                assert(blank_line_at(buf@, k as int));
                let c = choose|c: int| blank_line_at(buf@, c) && forall|j: int| 0 <= j < c ==> !blank_line_at(buf@, j);
                assert(c == k);
            }
            return Some(k + 4);
        }
        k = k + 1;
    }
    proof {
        assert forall|c: int| !(blank_line_at(buf@, c) && forall|j: int| 0 <= j < c ==> !blank_line_at(buf@, j)) by {
            if blank_line_at(buf@, c) {
                assert(c < k);
            }
        }
    }
    None
}

/// `s` holds `\r\n` at `k`.
pub open spec fn crlf_at(s: Seq<u8>, k: int) -> bool {
    0 <= k && k + 2 <= s.len() && s[k] == 13u8 && s[k + 1] == 10u8
}

/// The position of the first `\r\n` of `s`.
#[verifier::opaque]
pub open spec fn first_crlf(s: Seq<u8>) -> Option<int> {
    if exists|k: int| crlf_at(s, k) && forall|j: int| 0 <= j < k ==> !crlf_at(s, j) {
        Some(choose|k: int| crlf_at(s, k) && forall|j: int| 0 <= j < k ==> !crlf_at(s, j))
    } else {
        None
    }
}

/// The ASCII lower case of a byte.
pub open spec fn ascii_lower(b: u8) -> u8 {
    if 65 <= b <= 90 {
        (b + 32) as u8
    } else {
        b
    }
}

/// The line, in ASCII lower case, starts with `name`.
pub open spec fn starts_with_lower(line: Seq<u8>, name: Seq<u8>) -> bool {
    name.len() <= line.len() && forall|k: int| 0 <= k < name.len() ==> ascii_lower(line[k]) == name[k]
}

/// The line is one of the headers to remove.
pub open spec fn is_removed(line: Seq<u8>, names: Seq<Seq<u8>>) -> bool {
    exists|j: int| 0 <= j < names.len() && starts_with_lower(line, #[trigger] names[j])
}

/// A line followed by `\r\n`, unless it is a header to remove (the first
/// line, the request or status line, always stays).
pub open spec fn emit_line(line: Seq<u8>, names: Seq<Seq<u8>>, first: bool) -> Seq<u8> {
    if !first && is_removed(line, names) {
        Seq::empty()
    } else {
        line + seq![13u8, 10u8]
    }
}

/// The lines of `s` (split at `\r\n`), each emitted.
pub open spec fn emit_lines(s: Seq<u8>, names: Seq<Seq<u8>>, first: bool) -> Seq<u8>
    decreases s.len(),
{
    match first_crlf(s) {
        None => emit_line(s, names, first),
        Some(p) => if 0 <= p && p + 2 <= s.len() {
            emit_line(s.subrange(0, p), names, first) + emit_lines(
                s.subrange(p + 2, s.len() as int),
                names,
                false,
            )
        } else {
            Seq::empty()
        },
    }
}

/// Each added header followed by `\r\n`.
pub open spec fn added_lines(add: Seq<Seq<u8>>) -> Seq<u8>
    decreases add.len(),
{
    if add.len() == 0 {
        Seq::empty()
    } else {
        added_lines(add.drop_last()) + add.last() + seq![13u8, 10u8]
    }
}

/// A message with the headers of `remove` taken out of its head and those of
/// `add` appended; the message unchanged when it has no complete head or the
/// head is not UTF-8.
pub open spec fn rewritten(buf: Seq<u8>, remove: Seq<Seq<u8>>, add: Seq<Seq<u8>>) -> Seq<u8> {
    match header_end(buf) {
        None => buf,
        Some(end) => {
            let head = buf.subrange(0, end - 4);
            if !vstd::utf8::valid_utf8(head) {
                buf
            } else {
                emit_lines(head, remove, true) + added_lines(add) + seq![13u8, 10u8] + buf.subrange(
                    end,
                    buf.len() as int,
                )
            }
        },
    }
}

/// The bytes of each string.
pub open spec fn strs_bytes(strs: Seq<&str>) -> Seq<Seq<u8>> {
    strs.map_values(|s: &str| s.spec_bytes())
}

fn starts_with_lower_exec(line: &[u8], name: &[u8]) -> (r: bool)
    ensures
        r == starts_with_lower(line@, name@),
{
    if name.len() > line.len() {
        return false;
    }
    let mut k: usize = 0;
    while k < name.len()
        invariant
            name@.len() <= line@.len(),
            0 <= k <= name@.len(),
            forall|j: int| 0 <= j < k ==> ascii_lower(line@[j]) == name@[j],
        decreases name@.len() - k,
    {
        let b = line[k];
        let lower = if 65 <= b && b <= 90 { b + 32 } else { b };
        if lower != name[k] {
            return false;
        }
        k = k + 1;
    }
    true
}

fn is_removed_exec(line: &[u8], remove: &[&str]) -> (r: bool)
    ensures
        r == is_removed(line@, strs_bytes(remove@)),
{
    let mut j: usize = 0;
    while j < remove.len()
        invariant
            0 <= j <= remove@.len(),
            forall|i: int| 0 <= i < j ==> !starts_with_lower(line@, #[trigger] strs_bytes(remove@)[i]),
        decreases remove@.len() - j,
    {
        if starts_with_lower_exec(line, remove[j].as_bytes()) {
            assert(starts_with_lower(line@, strs_bytes(remove@)[j as int]));
            return true;
        }
        j = j + 1;
    }
    false
}

fn emit_line_exec(out: &mut Vec<u8>, line: &[u8], remove: &[&str], first: bool)
    ensures
        final(out)@ == old(out)@ + emit_line(line@, strs_bytes(remove@), first),
{
    if !first && is_removed_exec(line, remove) {
        assert(old(out)@ + Seq::<u8>::empty() =~= old(out)@);
        return;
    }
    append_bytes(out, line);
    out.push(13);
    out.push(10);
    assert(out@ =~= old(out)@ + emit_line(line@, strs_bytes(remove@), first));
}

/// The first `\r\n` of `s` at or after `pos`.
fn find_crlf(s: &[u8], pos: usize) -> (r: Option<usize>)
    requires
        pos <= s@.len(),
    ensures
        match r {
            Some(k) => pos <= k && crlf_at(s@, k as int) && forall|j: int| pos <= j < k ==> !crlf_at(s@, j),
            None => forall|j: int| pos <= j ==> !crlf_at(s@, j),
        },
{
    let mut k: usize = pos;
    while k < s.len() && s.len() - k >= 2
        invariant
            pos <= k <= s@.len(),
            forall|j: int| pos <= j < k ==> !crlf_at(s@, j),
        decreases s@.len() - k,
    {
        if s[k] == 13 && s[k + 1] == 10 {
            return Some(k);
        }
        k = k + 1;
    }
    None
}

proof fn lemma_emit_lines_split(s: Seq<u8>, pos: int, k: int, names: Seq<Seq<u8>>, first: bool)
    requires
        0 <= pos <= k,
        crlf_at(s, k),
        forall|j: int| pos <= j < k ==> !crlf_at(s, j),
    ensures
        emit_lines(s.subrange(pos, s.len() as int), names, first) == emit_line(s.subrange(pos, k), names, first)
            + emit_lines(s.subrange(k + 2, s.len() as int), names, false),
{
    reveal(first_crlf);
    let rest = s.subrange(pos, s.len() as int);
    assert(crlf_at(rest, k - pos));
    assert forall|j: int| 0 <= j < k - pos implies !crlf_at(rest, j) by {
        assert(!crlf_at(s, j + pos));
    }
    let c = choose|c: int| crlf_at(rest, c) && forall|j: int| 0 <= j < c ==> !crlf_at(rest, j);
    assert(c == k - pos);
    assert(rest.subrange(0, k - pos) =~= s.subrange(pos, k));
    assert(rest.subrange(k - pos + 2, rest.len() as int) =~= s.subrange(k + 2, s.len() as int));
}

proof fn lemma_emit_lines_last(s: Seq<u8>, pos: int, names: Seq<Seq<u8>>, first: bool)
    requires
        0 <= pos <= s.len(),
        forall|j: int| pos <= j ==> !crlf_at(s, j),
    ensures
        emit_lines(s.subrange(pos, s.len() as int), names, first) == emit_line(s.subrange(pos, s.len() as int), names, first),
{
    reveal(first_crlf);
    let rest = s.subrange(pos, s.len() as int);
    assert forall|c: int| !(crlf_at(rest, c) && forall|j: int| 0 <= j < c ==> !crlf_at(rest, j)) by {
        if crlf_at(rest, c) {
            assert(crlf_at(s, c + pos));
        }
    }
}

/// The lines of a message head, the headers of `remove` taken out.
fn emit_head(head: &[u8], remove: &[&str]) -> (out: Vec<u8>)
    ensures
        out@ == emit_lines(head@, strs_bytes(remove@), true),
{
    let ghost names = strs_bytes(remove@);
    let mut out: Vec<u8> = Vec::new();
    let mut pos: usize = 0;
    let mut first = true;
    let hl: usize = head.len();
    assert(head@.subrange(0, head@.len() as int) =~= head@);
    loop
        invariant_except_break
            0 <= pos <= head@.len(),
            out@ + emit_lines(head@.subrange(pos as int, head@.len() as int), names, first)
                == emit_lines(head@, names, true),
        invariant
            names == strs_bytes(remove@),
            hl == head@.len(),
        ensures
            out@ == emit_lines(head@, names, true),
        decreases head@.len() - pos,
    {
        let ghost before = out@;
        match find_crlf(head, pos) {
            Some(k) => {
                proof {
                    lemma_emit_lines_split(head@, pos as int, k as int, names, first);
                }
                assert(k + 2 <= hl);
                let line = &head[pos..k];
                emit_line_exec(&mut out, line, remove, first);
                proof {
                    assert(line@ =~= head@.subrange(pos as int, k as int));
                    vstd::seq_lib::lemma_concat_associative(before, emit_line(line@, names, first),
                        emit_lines(head@.subrange(k + 2, head@.len() as int), names, false));
                }
                pos = k + 2;
                first = false;
            },
            None => {
                proof {
                    lemma_emit_lines_last(head@, pos as int, names, first);
                }
                let line = &head[pos..head.len()];
                emit_line_exec(&mut out, line, remove, first);
                assert(line@ =~= head@.subrange(pos as int, head@.len() as int));
                break;
            },
        }
    }
    out
}

/// Takes the headers named in `remove` out of the head of `buf` and appends
/// those of `add`.
pub fn rewrite_headers(buf: &[u8], remove: &[&str], add: &[&str]) -> (r: Vec<u8>)
    ensures
        r@ == rewritten(buf@, strs_bytes(remove@), strs_bytes(add@)),
{
    let end = match find_header_end(buf) {
        Some(end) => end,
        None => {
            let mut copy: Vec<u8> = Vec::new();
            append_bytes(&mut copy, buf);
            assert(copy@ =~= buf@);
            return copy;
        },
    };
    proof {
        let k = choose|k: int| blank_line_at(buf@, k) && forall|j: int| 0 <= j < k ==> !blank_line_at(buf@, j);
        assert(end == k + 4);
    }
    let head = &buf[0..end - 4];
    let body = &buf[end..buf.len()];
    if utf8_text(head).is_err() {
        let mut copy: Vec<u8> = Vec::new();
        append_bytes(&mut copy, buf);
        assert(copy@ =~= buf@);
        return copy;
    }
    let mut out = emit_head(head, remove);
    let ghost after_head = out@;
    let mut j: usize = 0;
    while j < add.len()
        invariant
            0 <= j <= add@.len(),
            out@ == after_head + added_lines(strs_bytes(add@).subrange(0, j as int)),
        decreases add@.len() - j,
    {
        let ghost prev = out@;
        append_bytes(&mut out, add[j].as_bytes());
        out.push(13);
        out.push(10);
        proof {
            let s = strs_bytes(add@).subrange(0, j + 1);
            assert(s.drop_last() =~= strs_bytes(add@).subrange(0, j as int));
            assert(s.last() == add@[j as int].spec_bytes());
            assert(out@ =~= after_head + added_lines(s));
        }
        j = j + 1;
    }
    assert(strs_bytes(add@).subrange(0, add@.len() as int) =~= strs_bytes(add@));
    out.push(13);
    out.push(10);
    append_bytes(&mut out, body);
    proof {
        assert(head@ =~= buf@.subrange(0, end - 4));
        assert(out@ =~= rewritten(buf@, strs_bytes(remove@), strs_bytes(add@)));
    }
    out
}

/// The request line of a CORS preflight starts with this.
pub const OPTIONS_PREFIX: &'static str = "OPTIONS ";

/// The header, in lower case, that marks a CORS preflight.
pub const PREFLIGHT_METHOD_HEADER: &'static str = "access-control-request-method:";

/// The answer to a CORS preflight, sent without reaching the upstream.
pub const CORS_PREFLIGHT_RESPONSE: &'static str = "HTTP/1.1 204 No Content\r\nAccess-Control-Allow-Origin: *\r\nAccess-Control-Allow-Methods: GET, POST, PUT, PATCH, DELETE, OPTIONS\r\nAccess-Control-Allow-Headers: *\r\nAccess-Control-Max-Age: 86400\r\nContent-Length: 0\r\nConnection: close\r\n\r\n";

/// A line of `s` starts at `k`: at the start or right after a `\n`.
pub open spec fn line_start(s: Seq<u8>, k: int) -> bool {
    0 <= k <= s.len() && (k == 0 || s[k - 1] == 10u8)
}

/// Some line of `s`, in ASCII lower case, starts with `name`.
pub open spec fn has_line_with_lower_prefix(s: Seq<u8>, name: Seq<u8>) -> bool {
    exists|k: int| line_start(s, k) && #[trigger] starts_with_lower(s.subrange(k, s.len() as int), name)
}

/// A CORS preflight request: it starts with `OPTIONS `, it is UTF-8, and one of
/// its lines names `Access-Control-Request-Method` (in any case).
pub open spec fn is_preflight_request(request: Seq<u8>) -> bool {
    &&& OPTIONS_PREFIX.spec_bytes().len() <= request.len()
    &&& request.subrange(0, OPTIONS_PREFIX.spec_bytes().len() as int) == OPTIONS_PREFIX.spec_bytes()
    &&& vstd::utf8::valid_utf8(request)
    &&& has_line_with_lower_prefix(request, PREFLIGHT_METHOD_HEADER.spec_bytes())
}

fn has_prefix(s: &[u8], prefix: &[u8]) -> (r: bool)
    ensures
        r == (prefix@.len() <= s@.len() && s@.subrange(0, prefix@.len() as int) == prefix@),
{
    if prefix.len() > s.len() {
        return false;
    }
    let mut k: usize = 0;
    while k < prefix.len()
        invariant
            prefix@.len() <= s@.len(),
            0 <= k <= prefix@.len(),
            forall|j: int| 0 <= j < k ==> s@[j] == prefix@[j],
        decreases prefix@.len() - k,
    {
        if s[k] != prefix[k] {
            assert(s@.subrange(0, prefix@.len() as int)[k as int] != prefix@[k as int]);
            return false;
        }
        k = k + 1;
    }
    assert(s@.subrange(0, prefix@.len() as int) =~= prefix@);
    true
}

/// Whether a request head is a CORS preflight, which the proxy answers itself.
pub fn is_preflight(request: &[u8]) -> (r: bool)
    ensures
        r == is_preflight_request(request@),
{
    let options = OPTIONS_PREFIX.as_bytes();
    if !has_prefix(request, options) {
        return false;
    }
    if utf8_text(request).is_err() {
        return false;
    }
    let name = PREFLIGHT_METHOD_HEADER.as_bytes();
    let n = request.len();
    let mut k: usize = 0;
    loop
        invariant
            n == request@.len(),
            0 <= k <= n,
            name@ == PREFLIGHT_METHOD_HEADER.spec_bytes(),
            is_preflight_request(request@) <==> has_line_with_lower_prefix(request@, name@),
            forall|j: int| 0 <= j < k && line_start(request@, j) ==> !starts_with_lower(
                request@.subrange(j, request@.len() as int),
                name@,
            ),
        decreases n - k,
    {
        if k == 0 || request[k - 1] == 10 {
            let rest = &request[k..n];
            assert(rest@ =~= request@.subrange(k as int, request@.len() as int));
            if starts_with_lower_exec(rest, name) {
                assert(line_start(request@, k as int));
                return true;
            }
        }
        if k == n {
            proof {
                assert forall|j: int| !(line_start(request@, j) && #[trigger] starts_with_lower(
                    request@.subrange(j, request@.len() as int),
                    name@,
                )) by {
                    if line_start(request@, j) && j < k {
                    }
                }
            }
            return false;
        }
        k = k + 1;
    }
}

/// The answer to a CORS preflight.
pub fn cors_preflight_response() -> (r: &'static str)
    ensures
        r@ == CORS_PREFLIGHT_RESPONSE@,
{
    CORS_PREFLIGHT_RESPONSE
}

/// The headers that `force_connection_close` takes out.
pub open spec fn close_removed() -> Seq<Seq<u8>> {
    seq!["connection:".spec_bytes(), "proxy-connection:".spec_bytes(), "keep-alive:".spec_bytes()]
}

/// The header that `force_connection_close` and `add_cors_headers` add.
pub open spec fn close_added() -> Seq<Seq<u8>> {
    seq!["Connection: close".spec_bytes()]
}

/// Makes the upstream close the connection after its response: the
/// connection headers of the request are replaced by `Connection: close`.
pub fn force_connection_close(request: &[u8]) -> (r: Vec<u8>)
    ensures
        r@ == rewritten(request@, close_removed(), close_added()),
{
    let remove: [&str; 3] = ["connection:", "proxy-connection:", "keep-alive:"];
    let add: [&str; 1] = ["Connection: close"];
    proof {
        assert(strs_bytes(remove@) =~= close_removed());
        assert(strs_bytes(add@) =~= close_added());
    }
    rewrite_headers(request, remove.as_slice(), add.as_slice())
}

/// The headers that `add_cors_headers` takes out of a response.
pub open spec fn cors_removed() -> Seq<Seq<u8>> {
    seq![
        "connection:".spec_bytes(),
        "proxy-connection:".spec_bytes(),
        "keep-alive:".spec_bytes(),
        "access-control-allow-origin:".spec_bytes(),
        "access-control-allow-methods:".spec_bytes(),
        "access-control-allow-headers:".spec_bytes(),
        "access-control-allow-credentials:".spec_bytes(),
        "access-control-expose-headers:".spec_bytes(),
        "access-control-max-age:".spec_bytes(),
    ]
}

/// The headers that `add_cors_headers` adds to a response.
pub open spec fn cors_added() -> Seq<Seq<u8>> {
    seq![
        "Access-Control-Allow-Origin: *".spec_bytes(),
        "Access-Control-Allow-Methods: GET, POST, PUT, PATCH, DELETE, OPTIONS".spec_bytes(),
        "Access-Control-Allow-Headers: *".spec_bytes(),
        "Access-Control-Expose-Headers: *".spec_bytes(),
        "Connection: close".spec_bytes(),
    ]
}

/// Opens an upstream response to any origin and makes it the last on its
/// connection.
pub fn add_cors_headers(response: &[u8]) -> (r: Vec<u8>)
    ensures
        r@ == rewritten(response@, cors_removed(), cors_added()),
{
    let remove: [&str; 9] = [
        "connection:",
        "proxy-connection:",
        "keep-alive:",
        "access-control-allow-origin:",
        "access-control-allow-methods:",
        "access-control-allow-headers:",
        "access-control-allow-credentials:",
        "access-control-expose-headers:",
        "access-control-max-age:",
    ];
    let add: [&str; 5] = [
        "Access-Control-Allow-Origin: *",
        "Access-Control-Allow-Methods: GET, POST, PUT, PATCH, DELETE, OPTIONS",
        "Access-Control-Allow-Headers: *",
        "Access-Control-Expose-Headers: *",
        "Connection: close",
    ];
    proof {
        assert(strs_bytes(remove@) =~= cors_removed());
        assert(strs_bytes(add@) =~= cors_added());
    }
    rewrite_headers(response, remove.as_slice(), add.as_slice())
}

/// The value of a run of decimal digits.
pub open spec fn digits_value(d: Seq<char>) -> int
    decreases d.len(),
{
    if d.len() == 0 {
        0
    } else {
        digits_value(d.drop_last()) * 10 + (d.last() as int - '0' as int)
    }
}

/// Every character is an ASCII decimal digit.
pub open spec fn all_digits(d: Seq<char>) -> bool {
    forall|k: int| 0 <= k < d.len() ==> '0' <= #[trigger] d[k] <= '9'
}

/// The digits of an unsigned number: the text without one leading `+`.
pub open spec fn unsigned_digits(s: Seq<char>) -> Seq<char> {
    if s.len() > 0 && s[0] == '+' {
        s.drop_first()
    } else {
        s
    }
}

/// What `str::parse` gives for an unsigned integer type whose largest value
/// is `max`: an optional `+`, then at least one decimal digit, the value at
/// most `max`.
pub open spec fn parse_unsigned(s: Seq<char>, max: int) -> Option<int> {
    let d = unsigned_digits(s);
    if d.len() > 0 && all_digits(d) && digits_value(d) <= max {
        Some(digits_value(d))
    } else {
        None
    }
}

proof fn lemma_digits_monotone(d: Seq<char>, k: int)
    requires
        0 <= k <= d.len(),
        all_digits(d),
    ensures
        digits_value(d.subrange(0, k)) <= digits_value(d),
        0 <= digits_value(d.subrange(0, k)),
    decreases d.len(),
{
    if k == d.len() {
        assert(d.subrange(0, k) =~= d);
        lemma_digits_nonneg(d);
    } else {
        let e = d.drop_last();
        assert(all_digits(e)) by {
            assert forall|j: int| 0 <= j < e.len() implies '0' <= #[trigger] e[j] <= '9' by {
                assert(e[j] == d[j]);
            }
        }
        lemma_digits_monotone(e, k);
        assert(e.subrange(0, k) =~= d.subrange(0, k));
        lemma_digits_nonneg(e);
        assert('0' <= d[d.len() - 1] <= '9');
    }
}

proof fn lemma_digits_nonneg(d: Seq<char>)
    requires
        all_digits(d),
    ensures
        0 <= digits_value(d),
    decreases d.len(),
{
    if d.len() > 0 {
        let e = d.drop_last();
        assert(all_digits(e)) by {
            assert forall|j: int| 0 <= j < e.len() implies '0' <= #[trigger] e[j] <= '9' by {
                assert(e[j] == d[j]);
            }
        }
        lemma_digits_nonneg(e);
        assert('0' <= d[d.len() - 1] <= '9');
    }
}

/// Parses an unsigned decimal number no larger than `max` (as `str::parse`
/// for an unsigned integer type whose largest value is `max`).
pub fn parse_unsigned_u64(s: &str, max: u64) -> (r: Option<u64>)
    ensures
        r is Some <==> parse_unsigned(s@, max as int) is Some,
        r matches Some(v) ==> parse_unsigned(s@, max as int) == Some(v as int),
{
    let chars = chars_of(s);
    let n = chars.len();
    let mut i: usize = 0;
    if n > 0 && chars[0] == '+' {
        i = 1;
    }
    let ghost d = unsigned_digits(s@);
    proof {
        if n > 0 && chars@[0] == '+' {
            assert(d =~= chars@.subrange(1, n as int));
        } else {
            assert(d =~= chars@.subrange(0, n as int));
        }
    }
    let start = i;
    if start == n {
        return None;
    }
    let mut acc: u64 = 0;
    while i < n
        invariant
            start <= i <= n,
            n == chars@.len(),
            start < n,
            chars@ == s@,
            d == chars@.subrange(start as int, n as int),
            d == unsigned_digits(s@),
            forall|k: int| start <= k < i ==> '0' <= #[trigger] chars@[k] <= '9',
            acc as int == digits_value(chars@.subrange(start as int, i as int)),
            acc <= max,
        decreases n - i,
    {
        let c = chars[i];
        if c < '0' || c > '9' {
            assert(!all_digits(d)) by {
                assert(d[i - start] == c);
            }
            return None;
        }
        let digit = (c as u32 - '0' as u32) as u64;
        let ghost next = chars@.subrange(start as int, i + 1);
        assert(next.drop_last() =~= chars@.subrange(start as int, i as int));
        if digit > max || acc > (max - digit) / 10 {
            proof {
                assert(digits_value(next) == acc * 10 + digit);
                if digit <= max {
                    assert(acc * 10 + digit > max) by (nonlinear_arith)
                        requires
                            acc > (max - digit) / 10,
                            digit <= max,
                    {
                    }
                }
                if all_digits(d) {
                    lemma_digits_monotone(d, i + 1 - start);
                    assert(d.subrange(0, i + 1 - start) =~= next);
                }
            }
            return None;
        }
        acc = acc * 10 + digit;
        i = i + 1;
    }
    assert(chars@.subrange(start as int, n as int) =~= d);
    assert(all_digits(d)) by {
        assert forall|j: int| 0 <= j < d.len() implies '0' <= #[trigger] d[j] <= '9' by {
            assert(d[j] == chars@[start + j]);
        }
    }
    Some(acc)
}

impl ProxyConfig {
    /// The configuration from the settings that are present: the listen
    /// address (`127.0.0.1:18080` by default), the STAR API base
    /// (`http://127.0.0.1:8080`), the upstream host (`localhost`), port (8081,
    /// also when the setting is not a port number) and TLS server name (the
    /// upstream host), and the per-period request budget (10, also when the
    /// setting is not a number). The upstream certificate is not verified.
    pub fn from_values(
        listen_addr: Option<String>,
        api_base: Option<String>,
        upstream_host: Option<String>,
        upstream_port: Option<String>,
        upstream_sni: Option<String>,
        max_count: Option<String>,
    ) -> (r: Self)
        ensures
            r.listen_addr@ == (match listen_addr {
                Some(v) => v@,
                None => "127.0.0.1:18080"@,
            }),
            r.api_base@ == (match api_base {
                Some(v) => v@,
                None => "http://127.0.0.1:8080"@,
            }),
            r.upstream_host@ == (match upstream_host {
                Some(v) => v@,
                None => "localhost"@,
            }),
            r.upstream_sni@ == (match upstream_sni {
                Some(v) => v@,
                None => r.upstream_host@,
            }),
            r.upstream_port as int == (match upstream_port {
                Some(v) => match parse_unsigned(v@, 65535) {
                    Some(p) => p,
                    None => 8081,
                },
                None => 8081,
            }),
            r.max_count as int == (match max_count {
                Some(v) => match parse_unsigned(v@, u64::MAX as int) {
                    Some(m) => m,
                    None => 10,
                },
                None => 10,
            }),
            r.insecure_tls,
    {
        let upstream_host = match upstream_host {
            Some(v) => v,
            None => String::from_str("localhost"),
        };
        let port: u16 = match &upstream_port {
            Some(v) => match parse_unsigned_u64(v.as_str(), 65535) {
                Some(p) => p as u16,
                None => 8081,
            },
            None => 8081,
        };
        let upstream_sni = match upstream_sni {
            Some(v) => v,
            None => upstream_host.clone(),
        };
        let listen_addr = match listen_addr {
            Some(v) => v,
            None => String::from_str("127.0.0.1:18080"),
        };
        let api_base = match api_base {
            Some(v) => v,
            None => String::from_str("http://127.0.0.1:8080"),
        };
        let budget: u64 = match &max_count {
            Some(v) => match parse_unsigned_u64(v.as_str(), u64::MAX) {
                Some(m) => m,
                None => 10,
            },
            None => 10,
        };
        ProxyConfig {
            listen_addr,
            api_base,
            upstream_host,
            upstream_port: port,
            upstream_sni,
            insecure_tls: true,
            max_count: budget,
        }
    }
}

/// What the proxy does with a request head it has read.
pub enum RequestPlan {
    /// Answer the CORS preflight itself, with `CORS_PREFLIGHT_RESPONSE`.
    Preflight,
    /// Obtain a token and forward this head (the request made the last on
    /// its connection) to the upstream.
    Forward(Vec<u8>),
}

/// The plan for a request head: a preflight is answered here, any other
/// request goes upstream with `Connection: close`.
pub fn plan_request(head: &[u8]) -> (r: RequestPlan)
    ensures
        is_preflight_request(head@) ==> r is Preflight,
        !is_preflight_request(head@) ==> (r matches RequestPlan::Forward(h) && h@ == rewritten(
            head@,
            close_removed(),
            close_added(),
        )),
{
    if is_preflight(head) {
        RequestPlan::Preflight
    } else {
        RequestPlan::Forward(force_connection_close(head))
    }
}

/// Where reading a message head stands after a read of `read_len` bytes,
/// with `buffered` holding all bytes read so far.
pub enum HeadStep {
    /// The peer closed the connection before the head was complete.
    Closed,
    /// The head is complete.
    Complete,
    /// More than `MAX_HEADER_SIZE` bytes came without a complete head.
    TooLarge,
    /// Read again.
    ReadMore,
}

pub fn head_step(read_len: usize, buffered: &[u8]) -> (r: HeadStep)
    ensures
        read_len == 0 ==> r is Closed,
        read_len > 0 && header_end(buffered@) is Some ==> r is Complete,
        read_len > 0 && header_end(buffered@) is None && buffered@.len() > MAX_HEADER_SIZE ==> r is TooLarge,
        read_len > 0 && header_end(buffered@) is None && buffered@.len() <= MAX_HEADER_SIZE ==> r is ReadMore,
{
    if read_len == 0 {
        return HeadStep::Closed;
    }
    if find_header_end(buffered).is_some() {
        return HeadStep::Complete;
    }
    if buffered.len() > MAX_HEADER_SIZE {
        return HeadStep::TooLarge;
    }
    HeadStep::ReadMore
}

} // verus!
