use vstd::prelude::*;
use vstd::string::*;

use crate::text::{
    decimal, decimal_string,
    chars_of, hex_digit, hex_digit_value, in_class, is_ascii_white_space, is_white_space,
    strip_end, strip_start_index, trim, trim_bounds, CharClass,
};

verus! {

/// The lower-case hex digit of `d < 16`.
pub open spec fn hex_char(d: int) -> char {
    if d < 10 {
        (('0' as u32) + d) as char
    } else {
        (('a' as u32) + d - 10) as char
    }
}

/// The lower-case hex encoding of `bytes`: two digits per byte, high nibble
/// first.
pub open spec fn hex_string(bytes: Seq<u8>) -> Seq<char> {
    Seq::new(
        2 * bytes.len(),
        |i: int|
            if i % 2 == 0 {
                hex_char(bytes[i / 2] as int / 16)
            } else {
                hex_char(bytes[i / 2] as int % 16)
            },
    )
}

/// Encodes bytes as lower-case hex.
pub fn hex(bytes: &[u8]) -> (r: String)
    ensures
        r@ == hex_string(bytes@),
{
    let digits: &'static str = "0123456789abcdef";
    proof {
        reveal_strlit("0123456789abcdef");
        assert(digits.is_ascii());
    }
    let mut out = String::new();
    let mut i: usize = 0;
    while i < bytes.len()
        invariant
            0 <= i <= bytes@.len(),
            digits@ =~= seq!['0', '1', '2', '3', '4', '5', '6', '7', '8', '9', 'a', 'b', 'c', 'd', 'e', 'f'],
            digits.is_ascii(),
            out@ =~= hex_string(bytes@.subrange(0, i as int)),
        decreases bytes@.len() - i,
    {
        let hi = (bytes[i] / 16) as usize;
        let lo = (bytes[i] % 16) as usize;
        let hi_str = digits.substring_ascii(hi, hi + 1);
        let lo_str = digits.substring_ascii(lo, lo + 1);
        out.append(hi_str);
        out.append(lo_str);
        proof {
            assert(hi_str@ =~= seq![hex_char(hi as int)]);
            assert(lo_str@ =~= seq![hex_char(lo as int)]);
            assert(out@ =~= hex_string(bytes@.subrange(0, i + 1)));
        }
        i = i + 1;
    }
    assert(bytes@.subrange(0, bytes@.len() as int) =~= bytes@);
    out
}

/// `s` without a leading `0x` or `0X`.
pub open spec fn strip_hex_prefix(s: Seq<char>) -> Seq<char> {
    if s.len() >= 2 && s[0] == '0' && (s[1] == 'x' || s[1] == 'X') {
        s.subrange(2, s.len() as int)
    } else {
        s
    }
}

/// A separator that hex input may carry between digits.
pub open spec fn is_hex_separator(c: char) -> bool {
    c == ':' || c == '_' || is_ascii_white_space(c)
}

/// The digit values of `s` with separators left out, or `None` when `s` holds
/// another character.
pub open spec fn hex_digits(s: Seq<char>) -> Option<Seq<u8>>
    decreases s.len(),
{
    if s.len() == 0 {
        Some(Seq::empty())
    } else {
        match hex_digits(s.drop_last()) {
            None => None,
            Some(acc) => if is_hex_separator(s.last()) {
                Some(acc)
            } else {
                match hex_digit_value(s.last()) {
                    Some(v) => Some(acc.push(v)),
                    None => None,
                }
            },
        }
    }
}

/// The bytes that `n` pairs of digit values make.
pub open spec fn bytes_of_digits(digits: Seq<u8>, n: int) -> Seq<u8> {
    Seq::new(n as nat, |k: int| (digits[2 * k] * 16 + digits[2 * k + 1]) as u8)
}

/// What `parse_hex_array` reads from `input` for `n` bytes: the digits after
/// trimming and an optional `0x`, separators left out, exactly `2 * n` of them.
pub open spec fn parse_hex(input: Seq<char>, n: int) -> Option<Seq<u8>> {
    match hex_digits(strip_hex_prefix(trim(input))) {
        Some(digits) => if digits.len() == 2 * n {
            Some(bytes_of_digits(digits, n))
        } else {
            None
        },
        None => None,
    }
}

proof fn lemma_hex_digits_none_extends(s: Seq<char>, i: int)
    requires
        0 <= i <= s.len(),
        hex_digits(s.subrange(0, i)) is None,
    ensures
        hex_digits(s) is None,
    decreases s.len() - i,
{
    if i < s.len() {
        assert(s.subrange(0, i + 1).drop_last() =~= s.subrange(0, i));
        lemma_hex_digits_none_extends(s, i + 1);
    } else {
        assert(s.subrange(0, i) =~= s);
    }
}

/// What `{:?}` writes for a character: the character quoted, escaped where
/// it needs escaping.
pub uninterp spec fn char_debug(c: char) -> Seq<char>;

/// `format!("{ch:?}")`: the `Debug` text of a character.
#[verifier::external_body]
fn char_debug_text(ch: char) -> (r: String)
    ensures
        r@ == char_debug(ch),
{
    format!("{ch:?}")
}

/// The message for a character that is neither a hex digit nor a separator.
pub open spec fn non_hex_message(name: Seq<char>, ch: char) -> Seq<char> {
    name + " contains non-hex character "@ + char_debug(ch)
}

/// The message for a wrong number of digits.
pub open spec fn hex_length_message(name: Seq<char>, n: nat, got: nat) -> Seq<char> {
    name + " must be "@ + decimal(2 * n) + " hex characters for "@ + decimal(n) + " bytes, got "@
        + decimal(got)
}

/// Position `k` of `s` holds the first character that is neither a hex
/// digit nor a separator.
pub open spec fn first_non_hex_at(s: Seq<char>, k: int) -> bool {
    &&& 0 <= k < s.len()
    &&& hex_digits(s.subrange(0, k)) is Some
    &&& !is_hex_separator(s[k])
    &&& hex_digit_value(s[k]) is None
}

fn non_hex_error(name: &str, ch: char) -> (r: String)
    ensures
        r@ == non_hex_message(name@, ch),
{
    let mut msg = String::from_str(name);
    msg.append(" contains non-hex character ");
    let d = char_debug_text(ch);
    msg.append(d.as_str());
    msg
}

fn hex_length_error(name: &str, n: usize, got: usize) -> (r: String)
    requires
        n <= usize::MAX / 2,
    ensures
        r@ == hex_length_message(name@, n as nat, got as nat),
{
    let mut msg = String::from_str(name);
    msg.append(" must be ");
    let a = decimal_string((n * 2) as u64);
    msg.append(a.as_str());
    msg.append(" hex characters for ");
    let b = decimal_string(n as u64);
    msg.append(b.as_str());
    msg.append(" bytes, got ");
    let c = decimal_string(got as u64);
    msg.append(c.as_str());
    msg
}

/// Reads `N` bytes written as hex, possibly with a `0x` prefix and `:`, `_` or
/// white space between the digits.
pub fn parse_hex_array<const N: usize>(input: &str, name: &str) -> (r: Result<[u8; N], String>)
    requires
        N <= usize::MAX / 2,
    ensures
        r is Ok <==> parse_hex(input@, N as int) is Some,
        r matches Ok(bytes) ==> parse_hex(input@, N as int) == Some(bytes@),
        ({
            let s = strip_hex_prefix(trim(input@));
            match hex_digits(s) {
                None => r matches Err(e) && exists|k: int|
                    first_non_hex_at(s, k) && e@ == #[trigger] non_hex_message(name@, s[k]),
                Some(d) => d.len() != 2 * N ==> (r matches Err(e) && e@ == hex_length_message(
                    name@,
                    N as nat,
                    d.len(),
                )),
            }
        }),
{
    let chars = chars_of(input);
    let (start, end) = trim_bounds(&chars);
    let mut i: usize = start;
    if end - start >= 2 && chars[start] == '0' && (chars[start + 1] == 'x' || chars[start + 1] == 'X') {
        i = start + 2;
    }
    let ghost s = chars@.subrange(i as int, end as int);
    proof {
        assert(s =~= strip_hex_prefix(trim(input@)));
    }
    let ghost first = i;
    let mut digits: Vec<u8> = Vec::new();
    while i < end
        invariant
            first <= i <= end <= chars@.len(),
            s == chars@.subrange(first as int, end as int),
            s == strip_hex_prefix(trim(input@)),
            hex_digits(s.subrange(0, i - first)) == Some(digits@),
            forall|j: int| 0 <= j < digits@.len() ==> digits@[j] < 16,
        decreases end - i,
    {
        let ch = chars[i];
        proof {
            assert(s.subrange(0, i + 1 - first).drop_last() =~= s.subrange(0, i - first));
            assert(s.subrange(0, i + 1 - first).last() == ch);
        }
        if ch == ':' || ch == '_' || ch == ' ' || ch == '\t' || ch == '\n' || ch == '\x0C' || ch == '\r' {
        } else {
            match hex_digit(ch) {
                Some(v) => {
                    digits.push(v);
                },
                None => {
                    proof {
                        assert(hex_digits(s.subrange(0, i + 1 - first)) is None);
                        lemma_hex_digits_none_extends(s, i + 1 - first);
                        assert(s[i - first] == ch);
                        assert(first_non_hex_at(s, i - first));
                    }
                    let e = non_hex_error(name, ch);
                    assert(e@ == non_hex_message(name@, s[i - first]));
                    return Err(e);
                },
            }
        }
        i = i + 1;
    }
    proof {
        assert(s.subrange(0, end - first) =~= s);
    }
    if digits.len() != N * 2 {
        return Err(hex_length_error(name, N, digits.len()));
    }
    let mut out: [u8; N] = vstd::array::array_fill_for_copy_types(0u8);
    let mut k: usize = 0;
    while k < N
        invariant
            0 <= k <= N,
            N <= usize::MAX / 2,
            digits@.len() == 2 * N,
            out@.len() == N,
            forall|j: int| 0 <= j < digits@.len() ==> digits@[j] < 16,
            forall|j: int| 0 <= j < k ==> out@[j] == bytes_of_digits(digits@, N as int)[j],
        decreases N - k,
    {
        out[k] = digits[2 * k] * 16 + digits[2 * k + 1];
        k = k + 1;
    }
    assert(out@ =~= bytes_of_digits(digits@, N as int));
    Ok(out)
}

proof fn lemma_hex_char_digit(d: int)
    requires
        0 <= d < 16,
    ensures
        hex_digit_value(hex_char(d)) == Some(d as u8),
        !is_hex_separator(hex_char(d)),
        !is_white_space(hex_char(d)),
        hex_char(d) != 'x' && hex_char(d) != 'X',
{
}

proof fn lemma_hex_string_digits(bytes: Seq<u8>, k: int)
    requires
        0 <= k <= 2 * bytes.len(),
    ensures
        hex_digits(hex_string(bytes).subrange(0, k)) == Some(
            Seq::new(
                k as nat,
                |i: int|
                    if i % 2 == 0 {
                        (bytes[i / 2] / 16) as u8
                    } else {
                        (bytes[i / 2] % 16) as u8
                    },
            ),
        ),
    decreases k,
{
    let hs = hex_string(bytes);
    let f = |i: int|
        if i % 2 == 0 {
            (bytes[i / 2] / 16) as u8
        } else {
            (bytes[i / 2] % 16) as u8
        };
    if k == 0 {
        assert(Seq::new(0, f) =~= Seq::<u8>::empty());
    } else {
        lemma_hex_string_digits(bytes, k - 1);
        let s = hs.subrange(0, k);
        assert(s.drop_last() =~= hs.subrange(0, k - 1));
        let d = if (k - 1) % 2 == 0 {
            bytes[(k - 1) / 2] as int / 16
        } else {
            bytes[(k - 1) / 2] as int % 16
        };
        lemma_hex_char_digit(d);
        assert(s.last() == hex_char(d));
        assert(Seq::new((k - 1) as nat, f).push(d as u8) =~= Seq::new(k as nat, f));
    }
}

/// Hex text reads back as the bytes it encodes.
pub proof fn law_hex_round_trip(bytes: Seq<u8>)
    ensures
        parse_hex(hex_string(bytes), bytes.len() as int) == Some(bytes),
{
    let hs = hex_string(bytes);
    if hs.len() > 0 {
        lemma_hex_char_digit(bytes[0] as int / 16);
        lemma_hex_char_digit(bytes[0] as int % 16);
        let last = hs.len() - 1;
        lemma_hex_char_digit(bytes[last / 2] as int % 16);
        assert(hs.last() == hex_char(bytes[last / 2] as int % 16));
        assert(!in_class(CharClass::WhiteSpace, hs[0]));
        assert(strip_start_index(hs, CharClass::WhiteSpace) == 0);
        assert(hs.subrange(0, hs.len() as int) =~= hs);
        assert(!in_class(CharClass::WhiteSpace, hs.last()));
    } else {
        assert(hs.subrange(0, 0) =~= hs);
    }
    assert(trim(hs) == hs);
    assert(strip_hex_prefix(hs) == hs);
    lemma_hex_string_digits(bytes, 2 * bytes.len() as int);
    assert(hs.subrange(0, 2 * bytes.len() as int) =~= hs);
    let digits = hex_digits(hs)->0;
    assert forall|k: int| 0 <= k < bytes.len() implies bytes_of_digits(digits, bytes.len() as int)[k]
        == bytes[k] by {
        assert((2 * k) % 2 == 0);
        assert((2 * k + 1) % 2 == 1);
        assert((2 * k) / 2 == k);
        assert((2 * k + 1) / 2 == k);
        assert(bytes[k] / 16 * 16 + bytes[k] % 16 == bytes[k]);
    }
    assert(bytes_of_digits(digits, bytes.len() as int) =~= bytes);
}

/// The upper-case form of an ASCII letter; other characters are left as
/// they are.
pub open spec fn ascii_upper(c: char) -> char {
    if 'a' <= c <= 'z' {
        ((c as u32) - 32) as char
    } else {
        c
    }
}

/// The digit values of a concatenation are those of its parts, one after
/// the other.
proof fn lemma_hex_digits_concat(x: Seq<char>, y: Seq<char>)
    ensures
        hex_digits(x + y) == match (hex_digits(x), hex_digits(y)) {
            (Some(a), Some(b)) => Some(a + b),
            _ => None::<Seq<u8>>,
        },
    decreases y.len(),
{
    if y.len() == 0 {
        assert(x + y =~= x);
        match hex_digits(x) {
            Some(a) => assert(a + Seq::<u8>::empty() =~= a),
            None => {},
        }
    } else {
        assert((x + y).drop_last() =~= x + y.drop_last());
        assert((x + y).last() == y.last());
        lemma_hex_digits_concat(x, y.drop_last());
        match (hex_digits(x), hex_digits(y.drop_last())) {
            (Some(a), Some(b)) => {
                match hex_digit_value(y.last()) {
                    Some(v) => assert(a + b.push(v) =~= (a + b).push(v)),
                    None => {},
                }
            },
            _ => {},
        }
    }
}

/// Text whose digit values exist holds no `x` or `X`, and each of its
/// white-space characters is a separator.
proof fn lemma_hex_digits_chars(s: Seq<char>, k: int)
    requires
        hex_digits(s) is Some,
        0 <= k < s.len(),
    ensures
        s[k] != 'x' && s[k] != 'X',
        is_white_space(s[k]) ==> is_hex_separator(s[k]),
    decreases s.len(),
{
    if k < s.len() - 1 {
        assert(s.drop_last()[k] == s[k]);
        lemma_hex_digits_chars(s.drop_last(), k);
    }
}

/// Dropping trailing white space from such text keeps its digit values.
proof fn lemma_hex_digits_strip_end(s: Seq<char>)
    requires
        hex_digits(s) is Some,
    ensures
        hex_digits(strip_end(s, CharClass::WhiteSpace)) == hex_digits(s),
    decreases s.len(),
{
    if s.len() > 0 && in_class(CharClass::WhiteSpace, s.last()) {
        lemma_hex_digits_chars(s, s.len() - 1);
        lemma_hex_digits_strip_end(s.drop_last());
    }
}

/// A separator alone holds no digits.
proof fn lemma_separator_digits(c: char)
    requires
        is_hex_separator(c),
    ensures
        hex_digits(seq![c]) == Some(Seq::<u8>::empty()),
{
    let one = seq![c];
    assert(one.drop_last() =~= Seq::<char>::empty());
    assert(hex_digits(one.drop_last()) == Some(Seq::<u8>::empty()));
    assert(one.last() == c);
}

proof fn lemma_strip_start_bound(s: Seq<char>)
    ensures
        0 <= strip_start_index(s, CharClass::WhiteSpace) <= s.len(),
    decreases s.len(),
{
    if s.len() > 0 && in_class(CharClass::WhiteSpace, s[0]) {
        lemma_strip_start_bound(s.drop_first());
    }
}

/// Dropping leading white space from such text keeps its digit values.
proof fn lemma_hex_digits_strip_start(s: Seq<char>)
    requires
        hex_digits(s) is Some,
    ensures
        hex_digits(s.subrange(strip_start_index(s, CharClass::WhiteSpace), s.len() as int))
            == hex_digits(s),
    decreases s.len(),
{
    if s.len() == 0 || !in_class(CharClass::WhiteSpace, s[0]) {
        assert(s.subrange(0, s.len() as int) =~= s);
    } else {
        lemma_hex_digits_chars(s, 0);
        let rest = s.drop_first();
        assert(s =~= seq![s[0]] + rest);
        lemma_hex_digits_concat(seq![s[0]], rest);
        lemma_separator_digits(s[0]);
        lemma_strip_start_bound(rest);
        match hex_digits(rest) {
            Some(b) => assert(Seq::<u8>::empty() + b =~= b),
            None => {},
        }
        lemma_hex_digits_strip_start(rest);
        let i = strip_start_index(rest, CharClass::WhiteSpace);
        assert(s.subrange(i + 1, s.len() as int) =~= rest.subrange(i, rest.len() as int));
    }
}

/// Trailing white space after a prefix that does not end in white space is
/// dropped from the text after the prefix.
proof fn lemma_strip_end_after(p: Seq<char>, t: Seq<char>)
    requires
        p.len() > 0,
        !is_white_space(p.last()),
    ensures
        strip_end(p + t, CharClass::WhiteSpace) == p + strip_end(t, CharClass::WhiteSpace),
    decreases t.len(),
{
    if t.len() == 0 {
        assert(p + t =~= p);
        assert(p + Seq::<char>::empty() =~= p);
    } else {
        assert((p + t).last() == t.last());
        if is_white_space(t.last()) {
            assert((p + t).drop_last() =~= p + t.drop_last());
            lemma_strip_end_after(p, t.drop_last());
        }
    }
}

/// Text made of hex digits and separators reads as the digits it holds, and
/// so does the same text after a leading `0x` or `0X`: leading and trailing
/// white space is trimmed, and the prefix is removed.
proof fn lemma_parse_hex_digits(t: Seq<char>, n: int, x: char)
    requires
        hex_digits(t) is Some,
        x == 'x' || x == 'X',
    ensures
        parse_hex(t, n) == (if hex_digits(t)->0.len() == 2 * n {
            Some(bytes_of_digits(hex_digits(t)->0, n))
        } else {
            None
        }),
        parse_hex(seq!['0', x] + t, n) == parse_hex(t, n),
{
    let i = strip_start_index(t, CharClass::WhiteSpace);
    let u = t.subrange(i, t.len() as int);
    lemma_hex_digits_strip_start(t);
    lemma_hex_digits_strip_end(u);
    let tt = trim(t);
    assert(tt == strip_end(u, CharClass::WhiteSpace));
    assert(hex_digits(tt) == hex_digits(t));
    if tt.len() >= 2 {
        lemma_hex_digits_chars(tt, 1);
    }
    assert(strip_hex_prefix(tt) == tt);
    let p = seq!['0', x];
    let pt = p + t;
    assert(pt[0] == '0');
    assert(!is_white_space(pt[0]));
    assert(strip_start_index(pt, CharClass::WhiteSpace) == 0);
    assert(pt.subrange(0, pt.len() as int) =~= pt);
    lemma_strip_end_after(p, t);
    let st = strip_end(t, CharClass::WhiteSpace);
    assert(trim(pt) == p + st);
    assert((p + st)[0] == '0' && (p + st)[1] == x);
    assert((p + st).subrange(2, (p + st).len() as int) =~= st);
    assert(strip_hex_prefix(trim(pt)) == st);
    lemma_hex_digits_strip_end(t);
}

/// A character and its upper-case form are the same digit, or the same
/// separator, or neither.
proof fn lemma_upper_digit(c: char)
    ensures
        hex_digit_value(ascii_upper(c)) == hex_digit_value(c),
        is_hex_separator(ascii_upper(c)) == is_hex_separator(c),
{
    if 'a' <= c <= 'z' {
        assert('A' <= ascii_upper(c) <= 'Z');
        assert((ascii_upper(c) as u32) == (c as u32) - 32);
    }
}

/// Upper-casing text keeps its digit values.
proof fn lemma_upper_digits(t: Seq<char>)
    ensures
        hex_digits(t.map_values(|c: char| ascii_upper(c))) == hex_digits(t),
    decreases t.len(),
{
    let u = t.map_values(|c: char| ascii_upper(c));
    if t.len() > 0 {
        assert(u.drop_last() =~= t.drop_last().map_values(|c: char| ascii_upper(c)));
        lemma_upper_digits(t.drop_last());
        lemma_upper_digit(t.last());
        assert(u.last() == ascii_upper(t.last()));
    }
}

/// Hex input reads as the digits it holds, whatever its form: with or
/// without a leading `0x` or `0X`, in upper or lower case, and with `:`, `_`
/// or ASCII white space between and around the digits.
pub proof fn law_hex_input_forms(t: Seq<char>, n: int)
    requires
        hex_digits(t) is Some,
    ensures
        parse_hex(t, n) == (if hex_digits(t)->0.len() == 2 * n {
            Some(bytes_of_digits(hex_digits(t)->0, n))
        } else {
            None
        }),
        parse_hex(seq!['0', 'x'] + t, n) == parse_hex(t, n),
        parse_hex(seq!['0', 'X'] + t, n) == parse_hex(t, n),
        parse_hex(t.map_values(|c: char| ascii_upper(c)), n) == parse_hex(t, n),
{
    lemma_parse_hex_digits(t, n, 'x');
    lemma_parse_hex_digits(t, n, 'X');
    lemma_upper_digits(t);
    lemma_parse_hex_digits(t.map_values(|c: char| ascii_upper(c)), n, 'x');
}

/// A separator between digits changes nothing of what they read as.
pub proof fn law_hex_separator(a: Seq<char>, sep: char, b: Seq<char>)
    requires
        is_hex_separator(sep),
    ensures
        hex_digits(a + seq![sep] + b) == hex_digits(a + b),
{
    lemma_hex_digits_concat(a + seq![sep], b);
    lemma_hex_digits_concat(a, seq![sep]);
    lemma_hex_digits_concat(a, b);
    lemma_separator_digits(sep);
    match hex_digits(a) {
        Some(x) => assert(x + Seq::<u8>::empty() =~= x),
        None => {},
    }
}

/// Hex text that `hex` writes is read back to the same bytes in every form
/// that parsing accepts: as written, after a leading `0x` or `0X`, in upper
/// case, with white space around it, and with a separator put between any
/// two of its characters.
pub proof fn law_hex_output_forms(bytes: Seq<u8>, k: int, sep: char)
    requires
        0 <= k <= 2 * bytes.len(),
        is_hex_separator(sep),
    ensures
        hex_digits(hex_string(bytes)) is Some,
        parse_hex(hex_string(bytes), bytes.len() as int) == Some(bytes),
        parse_hex(seq!['0', 'x'] + hex_string(bytes), bytes.len() as int) == Some(bytes),
        parse_hex(seq!['0', 'X'] + hex_string(bytes), bytes.len() as int) == Some(bytes),
        parse_hex(hex_string(bytes).map_values(|c: char| ascii_upper(c)), bytes.len() as int) == Some(
            bytes,
        ),
        parse_hex(seq![' '] + hex_string(bytes) + seq!['\n'], bytes.len() as int) == Some(bytes),
        parse_hex(
            hex_string(bytes).subrange(0, k) + seq![sep] + hex_string(bytes).subrange(
                k,
                2 * bytes.len() as int,
            ),
            bytes.len() as int,
        ) == Some(bytes),
{
    let hs = hex_string(bytes);
    let n = bytes.len() as int;
    lemma_hex_string_digits(bytes, 2 * n);
    assert(hs.subrange(0, 2 * n) =~= hs);
    law_hex_round_trip(bytes);
    law_hex_input_forms(hs, n);
    // white space around it
    let t = seq![' '] + hs + seq!['\n'];
    lemma_separator_digits(' ');
    lemma_separator_digits('\n');
    lemma_hex_digits_concat(seq![' '], hs);
    lemma_hex_digits_concat(seq![' '] + hs, seq!['\n']);
    let d = hex_digits(hs)->0;
    assert(Seq::<u8>::empty() + d =~= d);
    assert(d + Seq::<u8>::empty() =~= d);
    assert(hex_digits(t) == hex_digits(hs));
    law_hex_input_forms(t, n);
    // a separator between two characters
    let a = hs.subrange(0, k);
    let b = hs.subrange(k, 2 * n);
    assert(a + b =~= hs);
    law_hex_separator(a, sep, b);
    law_hex_input_forms(a + seq![sep] + b, n);
}

} // verus!
