use base64::Engine;
use vstd::prelude::*;
use vstd::string::*;
use vstd::utf8::{decode_utf8, encode_utf8, valid_utf8};

use crate::text::{utf8_error_message, utf8_text, chars_of, is_white_space, strip, strip_bounds, trim, trim_bounds, white_space, CharClass};
use crate::tools::quote::{parse_quote, parsed_quote};

verus! {

/// What base64 with the URL-safe alphabet and canonical padding decodes
/// `input` to, or `None`.
pub uninterp spec fn base64_url_decode(input: Seq<u8>) -> Option<Seq<u8>>;

/// What base64 with the URL-safe alphabet and no padding decodes `input` to,
/// or `None`.
pub uninterp spec fn base64_url_nopad_decode(input: Seq<u8>) -> Option<Seq<u8>>;

/// `base64::engine::general_purpose::URL_SAFE.decode`; the error is the
/// decoder's message.
#[verifier::external_body]
pub(crate) fn url_safe_decode(input: &[u8]) -> (r: Result<Vec<u8>, String>)
    ensures
        r is Ok <==> base64_url_decode(input@) is Some,
        r matches Ok(v) ==> base64_url_decode(input@) == Some(v@),
{
    match base64::engine::general_purpose::URL_SAFE.decode(input) {
        Ok(v) => Ok(v),
        Err(err) => Err(err.to_string()),
    }
}

/// `base64::engine::general_purpose::URL_SAFE_NO_PAD.decode`; the error is the
/// decoder's message.
#[verifier::external_body]
fn url_safe_no_pad_decode(input: &[u8]) -> (r: Result<Vec<u8>, String>)
    ensures
        r is Ok <==> base64_url_nopad_decode(input@) is Some,
        r matches Ok(v) ==> base64_url_nopad_decode(input@) == Some(v@),
{
    match base64::engine::general_purpose::URL_SAFE_NO_PAD.decode(input) {
        Ok(v) => Ok(v),
        Err(err) => Err(err.to_string()),
    }
}

/// The text that base64 with the URL-safe alphabet and padding encodes
/// `input` to.
pub uninterp spec fn base64_url_encode(input: Seq<u8>) -> Seq<char>;

/// `base64::engine::general_purpose::URL_SAFE.encode`: the padded URL-safe
/// base64 text of the bytes, which the same engine decodes back to them.
#[verifier::external_body]
pub(crate) fn url_safe_encode(input: &[u8]) -> (r: String)
    ensures
        r@ == base64_url_encode(input@),
        base64_url_decode(encode_utf8(r@)) == Some(input@),
{
    base64::engine::general_purpose::URL_SAFE.encode(input)
}

/// What `decode_base64` gives for a text: its trimmed UTF-8 bytes decoded as
/// padded URL-safe base64, or else as unpadded URL-safe base64.
pub open spec fn base64_text_decode(s: Seq<char>) -> Option<Seq<u8>> {
    let b = encode_utf8(trim(s));
    match base64_url_decode(b) {
        Some(v) => Some(v),
        None => base64_url_nopad_decode(b),
    }
}

/// Decodes URL-safe base64, padded or not, after trimming white space.
pub fn decode_base64(input: &str) -> (r: Result<Vec<u8>, String>)
    ensures
        r is Ok <==> base64_text_decode(input@) is Some,
        r matches Ok(v) ==> base64_text_decode(input@) == Some(v@),
{
    let chars = chars_of(input);
    let (start, end) = trim_bounds(&chars);
    let trimmed = input.substring_char(start, end);
    let bytes = trimmed.as_bytes();
    match url_safe_decode(bytes) {
        Ok(v) => Ok(v),
        Err(_) => match url_safe_no_pad_decode(bytes) {
            Ok(v) => Ok(v),
            Err(err) => {
                let mut msg = String::from_str("decode base64: ");
                msg.append(err.as_str());
                Err(msg)
            },
        },
    }
}

/// What `decode_base64_padded` gives for a text: its trimmed UTF-8 bytes
/// decoded as padded URL-safe base64.
pub open spec fn base64_padded_text_decode(s: Seq<char>) -> Option<Seq<u8>> {
    base64_url_decode(encode_utf8(trim(s)))
}

/// Decodes padded URL-safe base64 after trimming white space; the error is
/// the decoder's message.
pub fn decode_base64_padded(input: &str) -> (r: Result<Vec<u8>, String>)
    ensures
        r is Ok <==> base64_padded_text_decode(input@) is Some,
        r matches Ok(v) ==> base64_padded_text_decode(input@) == Some(v@),
{
    let chars = chars_of(input);
    let (start, end) = trim_bounds(&chars);
    let trimmed = input.substring_char(start, end);
    url_safe_decode(trimmed.as_bytes())
}

/// A scan of `s` for runs of non-white-space characters: the runs closed so
/// far, as index ranges, and the start of the run still open.
pub open spec fn ws_scan(s: Seq<char>) -> (Seq<(int, int)>, Option<int>)
    decreases s.len(),
{
    if s.len() == 0 {
        (Seq::empty(), None)
    } else {
        let (runs, open) = ws_scan(s.drop_last());
        let i = s.len() - 1;
        if is_white_space(s[i]) {
            match open {
                Some(start) => (runs.push((start, i)), None),
                None => (runs, None),
            }
        } else {
            match open {
                Some(start) => (runs, Some(start)),
                None => (runs, Some(i)),
            }
        }
    }
}

/// The maximal runs of non-white-space characters of `s`, as index ranges in
/// order (as `str::split_whitespace`).
pub open spec fn ws_tokens(s: Seq<char>) -> Seq<(int, int)> {
    let (runs, open) = ws_scan(s);
    match open {
        Some(start) => runs.push((start, s.len() as int)),
        None => runs,
    }
}

/// The index ranges of the white-space separated tokens of `cs`.
pub fn whitespace_tokens(cs: &Vec<char>) -> (r: Vec<(usize, usize)>)
    ensures
        r@.len() == ws_tokens(cs@).len(),
        forall|k: int| 0 <= k < r@.len() ==> (#[trigger] r@[k].0 as int, r@[k].1 as int) == ws_tokens(cs@)[k],
        forall|k: int| 0 <= k < r@.len() ==> #[trigger] r@[k].0 <= r@[k].1 <= cs@.len(),
{
    let mut runs: Vec<(usize, usize)> = Vec::new();
    let mut open: Option<usize> = None;
    let mut i: usize = 0;
    while i < cs.len()
        invariant
            0 <= i <= cs@.len(),
            runs@.len() == ws_scan(cs@.subrange(0, i as int)).0.len(),
            forall|k: int| 0 <= k < runs@.len() ==> (#[trigger] runs@[k].0 as int, runs@[k].1 as int)
                == ws_scan(cs@.subrange(0, i as int)).0[k],
            forall|k: int| 0 <= k < runs@.len() ==> #[trigger] runs@[k].0 <= runs@[k].1 <= i,
            match (open, ws_scan(cs@.subrange(0, i as int)).1) {
                (Some(a), Some(b)) => a as int == b && a <= i,
                (None, None) => true,
                _ => false,
            },
        decreases cs@.len() - i,
    {
        let ghost prev = cs@.subrange(0, i as int);
        assert(cs@.subrange(0, i + 1).drop_last() =~= prev);
        if white_space(cs[i]) {
            match open {
                Some(start) => {
                    runs.push((start, i));
                    open = None;
                },
                None => {},
            }
        } else {
            match open {
                Some(_) => {},
                None => {
                    open = Some(i);
                },
            }
        }
        i = i + 1;
    }
    assert(cs@.subrange(0, cs@.len() as int) =~= cs@);
    match open {
        Some(start) => {
            runs.push((start, cs.len()));
        },
        None => {},
    }
    runs
}

/// `k` is the first position of `c` in `s`.
pub open spec fn is_first_of(s: Seq<char>, c: char, k: int) -> bool {
    0 <= k < s.len() && s[k] == c && forall|j: int| 0 <= j < k ==> s[j] != c
}

/// `k` is the last position of `c` in `s`.
pub open spec fn is_last_of(s: Seq<char>, c: char, k: int) -> bool {
    0 <= k < s.len() && s[k] == c && forall|j: int| k < j < s.len() ==> s[j] != c
}

/// The text after the first `c` of `s` (as `str::split_once`).
pub open spec fn after_first(s: Seq<char>, c: char) -> Option<Seq<char>> {
    if exists|k: int| is_first_of(s, c, k) {
        let k = choose|k: int| is_first_of(s, c, k);
        Some(s.subrange(k + 1, s.len() as int))
    } else {
        None
    }
}

/// The text after the last `c` of `s` (as `str::rsplit_once`).
pub open spec fn after_last(s: Seq<char>, c: char) -> Option<Seq<char>> {
    if exists|k: int| is_last_of(s, c, k) {
        let k = choose|k: int| is_last_of(s, c, k);
        Some(s.subrange(k + 1, s.len() as int))
    } else {
        None
    }
}

/// `c` as a one-element list when it is not empty.
pub open spec fn keep_nonempty(c: Seq<char>) -> Seq<Seq<char>> {
    if c.len() > 0 {
        seq![c]
    } else {
        Seq::empty()
    }
}

pub open spec fn keep_some_nonempty(c: Option<Seq<char>>) -> Seq<Seq<char>> {
    match c {
        Some(c) => keep_nonempty(c),
        None => Seq::empty(),
    }
}

/// The readings of a token that may hold a quote: the token without quotes and
/// punctuation around it, what follows its first `=`, what follows its last
/// `:`, leaving out empty ones.
pub open spec fn token_candidates(t: Seq<char>) -> Seq<Seq<char>> {
    let tm = strip(t, CharClass::QuotePunct);
    keep_nonempty(tm) + keep_some_nonempty(after_first(tm, '=')) + keep_some_nonempty(
        after_last(tm, ':'),
    )
}

/// The candidates of the tokens `toks` of `cs`, the last token first.
pub open spec fn reversed_token_candidates(cs: Seq<char>, toks: Seq<(int, int)>) -> Seq<Seq<char>>
    decreases toks.len(),
{
    if toks.len() == 0 {
        Seq::empty()
    } else {
        let (a, b) = toks.last();
        token_candidates(cs.subrange(a, b)) + reversed_token_candidates(cs, toks.drop_last())
    }
}

/// Where a quote is looked for in a text: the whole trimmed text, then each
/// token, from the last one back.
pub open spec fn text_quote_candidates(cs: Seq<char>) -> Seq<Seq<char>> {
    keep_nonempty(trim(cs)) + reversed_token_candidates(cs, ws_tokens(cs))
}

/// What a candidate gives: the quote it decodes to, when that quote parses.
pub open spec fn candidate_quote(c: Seq<char>) -> Option<Seq<u8>> {
    match base64_text_decode(c) {
        Some(q) => if parsed_quote(q) is Some {
            Some(q)
        } else {
            None
        },
        None => None,
    }
}

/// The quote of the first candidate that gives one.
pub open spec fn first_quote(cands: Seq<Seq<char>>) -> Option<Seq<u8>>
    decreases cands.len(),
{
    if cands.len() == 0 {
        None
    } else {
        match candidate_quote(cands[0]) {
            Some(q) => Some(q),
            None => first_quote(cands.drop_first()),
        }
    }
}

/// The quote that `decode_quote_input` finds in its input: the input itself
/// when it parses as a quote, else the first candidate of the input read as
/// UTF-8 text that decodes to a parseable quote.
pub open spec fn quote_in_input(input: Seq<u8>) -> Option<Seq<u8>> {
    if parsed_quote(input) is Some {
        Some(input)
    } else if !valid_utf8(input) {
        None
    } else {
        first_quote(text_quote_candidates(decode_utf8(input)))
    }
}

proof fn lemma_first_quote_concat(xs: Seq<Seq<char>>, ys: Seq<Seq<char>>)
    ensures
        first_quote(xs + ys) == match first_quote(xs) {
            Some(q) => Some(q),
            None => first_quote(ys),
        },
    decreases xs.len(),
{
    if xs.len() > 0 {
        assert((xs + ys).drop_first() =~= xs.drop_first() + ys);
        lemma_first_quote_concat(xs.drop_first(), ys);
    } else {
        assert(xs + ys =~= ys);
    }
}

/// The quote that the text `cs[a..b]` gives as a candidate.
fn try_candidate(text: &str, cs: &Vec<char>, a: usize, b: usize) -> (r: Option<Vec<u8>>)
    requires
        cs@ == text@,
        a <= b <= cs@.len(),
    ensures
        match (r, candidate_quote(cs@.subrange(a as int, b as int))) {
            (Some(q), Some(sq)) => q@ == sq,
            (None, None) => true,
            _ => false,
        },
{
    let piece = text.substring_char(a, b);
    match decode_base64(piece) {
        Ok(q) => {
            if parse_quote(q.as_slice()).is_ok() {
                Some(q)
            } else {
                None
            }
        },
        Err(_) => None,
    }
}

/// The first position of `c` in `cs[a..b]`.
fn find_first(cs: &Vec<char>, a: usize, b: usize, c: char) -> (r: Option<usize>)
    requires
        a <= b <= cs@.len(),
    ensures
        match r {
            Some(k) => a <= k < b && is_first_of(cs@.subrange(a as int, b as int), c, k - a),
            None => forall|j: int| a <= j < b ==> cs@[j] != c,
        },
{
    let mut k: usize = a;
    while k < b
        invariant
            a <= k <= b <= cs@.len(),
            forall|j: int| a <= j < k ==> cs@[j] != c,
        decreases b - k,
    {
        if cs[k] == c {
            return Some(k);
        }
        k = k + 1;
    }
    None
}

/// The last position of `c` in `cs[a..b]`.
fn find_last(cs: &Vec<char>, a: usize, b: usize, c: char) -> (r: Option<usize>)
    requires
        a <= b <= cs@.len(),
    ensures
        match r {
            Some(k) => a <= k < b && is_last_of(cs@.subrange(a as int, b as int), c, k - a),
            None => forall|j: int| a <= j < b ==> cs@[j] != c,
        },
{
    let mut k: usize = b;
    while k > a
        invariant
            a <= k <= b <= cs@.len(),
            forall|j: int| k <= j < b ==> cs@[j] != c,
        decreases k,
    {
        if cs[k - 1] == c {
            return Some(k - 1);
        }
        k = k - 1;
    }
    None
}

/// Tries the candidates of the token `cs[a..b]` in order.
fn try_token(text: &str, cs: &Vec<char>, a: usize, b: usize) -> (r: Option<Vec<u8>>)
    requires
        cs@ == text@,
        a <= b <= cs@.len(),
    ensures
        match (r, first_quote(token_candidates(cs@.subrange(a as int, b as int)))) {
            (Some(q), Some(sq)) => q@ == sq,
            (None, None) => true,
            _ => false,
        },
{
    let ghost t = cs@.subrange(a as int, b as int);
    let (s, e) = strip_bounds(cs, a, b, CharClass::QuotePunct);
    let ghost tm = strip(t, CharClass::QuotePunct);
    assert(cs@.subrange(s as int, e as int) == tm);
    let ghost c1 = keep_nonempty(tm);
    let ghost c2 = keep_some_nonempty(after_first(tm, '='));
    let ghost c3 = keep_some_nonempty(after_last(tm, ':'));
    proof {
        assert(token_candidates(t) == c1 + c2 + c3);
        lemma_first_quote_concat(c1 + c2, c3);
        lemma_first_quote_concat(c1, c2);
    }
    if s < e {
        let r = try_candidate(text, cs, s, e);
        proof {
            assert(c1 =~= seq![tm]);
            assert(seq![tm].drop_first() =~= Seq::<Seq<char>>::empty());
        }
        if r.is_some() {
            return r;
        }
    } else {
        assert(c1 =~= Seq::<Seq<char>>::empty());
    }
    match find_first(cs, s, e, '=') {
        Some(k) => {
            proof {
                assert(is_first_of(tm, '=', k - s));
                let kk = choose|kk: int| is_first_of(tm, '=', kk);
                assert(kk == k - s);
                assert(tm.subrange(k - s + 1, tm.len() as int) =~= cs@.subrange(k + 1, e as int));
            }
            if k + 1 < e {
                let r = try_candidate(text, cs, k + 1, e);
                proof {
                    assert(c2 =~= seq![cs@.subrange(k + 1, e as int)]);
                    assert(c2.drop_first() =~= Seq::<Seq<char>>::empty());
                }
                if r.is_some() {
                    return r;
                }
            } else {
                assert(c2 =~= Seq::<Seq<char>>::empty());
            }
        },
        None => {
            proof {
                assert(!exists|kk: int| is_first_of(tm, '=', kk));
                assert(c2 =~= Seq::<Seq<char>>::empty());
            }
        },
    }
    match find_last(cs, s, e, ':') {
        Some(k) => {
            proof {
                assert(is_last_of(tm, ':', k - s));
                let kk = choose|kk: int| is_last_of(tm, ':', kk);
                assert(kk == k - s);
                assert(tm.subrange(k - s + 1, tm.len() as int) =~= cs@.subrange(k + 1, e as int));
            }
            if k + 1 < e {
                let r = try_candidate(text, cs, k + 1, e);
                proof {
                    assert(c3 =~= seq![cs@.subrange(k + 1, e as int)]);
                    assert(c3.drop_first() =~= Seq::<Seq<char>>::empty());
                }
                return r;
            } else {
                assert(c3 =~= Seq::<Seq<char>>::empty());
            }
        },
        None => {
            proof {
                assert(!exists|kk: int| is_last_of(tm, ':', kk));
                assert(c3 =~= Seq::<Seq<char>>::empty());
            }
        },
    }
    None
}

/// Finds a quote in input that is either the raw quote or text holding it in
/// base64 (the whole text, or one of its tokens such as `NAME=<base64>`); the
/// tokens are tried from the last one back.
pub fn decode_quote_input(input: &[u8]) -> (r: Result<Vec<u8>, String>)
    ensures
        r is Ok <==> quote_in_input(input@) is Some,
        r matches Ok(q) ==> quote_in_input(input@) == Some(q@),
        parsed_quote(input@) is None && !valid_utf8(input@) ==> (r matches Err(m) && m@
            == "stdin is neither a raw quote nor UTF-8 base64 text: "@ + utf8_error_message(input@)),
        parsed_quote(input@) is None && valid_utf8(input@) && quote_in_input(input@) is None ==> (
        r matches Err(m) && m@ == "could not find a parseable SGX quote in stdin"@),
{
    if parse_quote(input).is_ok() {
        let mut out: Vec<u8> = Vec::new();
        crate::ct::bytes::append_bytes(&mut out, input);
        assert(out@ =~= input@);
        return Ok(out);
    }
    let text = match utf8_text(input) {
        Ok(text) => text,
        Err(err) => {
            let mut msg = String::from_str("stdin is neither a raw quote nor UTF-8 base64 text: ");
            msg.append(err.as_str());
            return Err(msg);
        },
    };
    let cs = chars_of(text);
    let ghost all = text_quote_candidates(cs@);
    let (start, end) = trim_bounds(&cs);
    let ghost toks = ws_tokens(cs@);
    let ghost rest = reversed_token_candidates(cs@, toks);
    proof {
        lemma_first_quote_concat(keep_nonempty(trim(cs@)), rest);
    }
    if start < end {
        let r = try_candidate(text, &cs, start, end);
        proof {
            assert(keep_nonempty(trim(cs@)) =~= seq![trim(cs@)]);
            assert(seq![trim(cs@)].drop_first() =~= Seq::<Seq<char>>::empty());
        }
        match r {
            Some(q) => return Ok(q),
            None => {
                proof {
                    let k = keep_nonempty(trim(cs@));
                    assert(candidate_quote(k[0]) is None);
                    assert(first_quote(k.drop_first()) is None);
                    assert(first_quote(k) is None);
                }
            },
        }
    } else {
        assert(keep_nonempty(trim(cs@)) =~= Seq::<Seq<char>>::empty());
    }
    let tokens = whitespace_tokens(&cs);
    proof {
        assert(quote_in_input(input@) == first_quote(all));
        assert(first_quote(all) == first_quote(rest));
        assert(toks.subrange(0, tokens@.len() as int) =~= toks);
    }
    let mut idx: usize = tokens.len();
    while idx > 0
        invariant
            0 <= idx <= tokens@.len(),
            cs@ == text@,
            tokens@.len() == toks.len(),
            toks == ws_tokens(cs@),
            forall|k: int| 0 <= k < tokens@.len() ==> (#[trigger] tokens@[k].0 as int, tokens@[k].1 as int) == toks[k],
            forall|k: int| 0 <= k < tokens@.len() ==> #[trigger] tokens@[k].0 <= tokens@[k].1 <= cs@.len(),
            first_quote(all) == first_quote(reversed_token_candidates(cs@, toks.subrange(0, idx as int))),
            quote_in_input(input@) == first_quote(all),
        decreases idx,
    {
        let (a, b) = tokens[idx - 1];
        let ghost pre = toks.subrange(0, idx as int);
        proof {
            assert(pre.drop_last() =~= toks.subrange(0, idx - 1));
            assert(pre.last() == toks[idx - 1]);
            lemma_first_quote_concat(
                token_candidates(cs@.subrange(a as int, b as int)),
                reversed_token_candidates(cs@, toks.subrange(0, idx - 1)),
            );
        }
        match try_token(text, &cs, a, b) {
            Some(q) => return Ok(q),
            None => {},
        }
        idx = idx - 1;
    }
    proof {
        assert(toks.subrange(0, 0) =~= Seq::<(int, int)>::empty());
    }
    Err(String::from_str("could not find a parseable SGX quote in stdin"))
}

} // verus!
