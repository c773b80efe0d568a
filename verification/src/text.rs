//! Character-level helpers on strings: whitespace, trimming and ASCII digits.

use vstd::prelude::*;
use vstd::string::StrSliceExecFns;
use vstd::utf8::{decode_utf8, valid_utf8};

verus! {

/// The message of `std::str::Utf8Error` for invalid UTF-8 `bytes` (it names
/// where the valid prefix ends and what follows).
pub uninterp spec fn utf8_error_message(bytes: Seq<u8>) -> Seq<char>;

/// `std::str::from_utf8`: the bytes read as text when they are valid UTF-8;
/// otherwise the error's message, which depends on the bytes alone.
#[verifier::external_body]
pub(crate) fn utf8_text(bytes: &[u8]) -> (r: Result<&str, String>)
    ensures
        r is Ok <==> valid_utf8(bytes@),
        r matches Ok(s) ==> s@ == decode_utf8(bytes@),
        r matches Err(m) ==> m@ == utf8_error_message(bytes@),
{
    match std::str::from_utf8(bytes) {
        Ok(s) => Ok(s),
        Err(err) => Err(err.to_string()),
    }
}

/// The characters with the Unicode `White_Space` property.
pub open spec fn is_white_space(c: char) -> bool {
    let v = c as u32;
    (0x09 <= v <= 0x0d) || v == 0x20 || v == 0x85 || v == 0xa0 || v == 0x1680 || (0x2000 <= v
        <= 0x200a) || v == 0x2028 || v == 0x2029 || v == 0x202f || v == 0x205f || v == 0x3000
}

/// Whether `c` has the Unicode `White_Space` property (as `char::is_whitespace`).
pub fn white_space(c: char) -> (r: bool)
    ensures
        r == is_white_space(c),
{
    let v = c as u32;
    (0x09 <= v && v <= 0x0d) || v == 0x20 || v == 0x85 || v == 0xa0 || v == 0x1680 || (0x2000 <= v
        && v <= 0x200a) || v == 0x2028 || v == 0x2029 || v == 0x202f || v == 0x205f || v == 0x3000
}

/// The characters of a string.
pub fn chars_of(s: &str) -> (r: Vec<char>)
    ensures
        r@ == s@,
{
    let n = s.unicode_len();
    let mut out: Vec<char> = Vec::new();
    let mut i: usize = 0;
    while i < n
        invariant
            0 <= i <= n,
            n == s@.len(),
            out@ == s@.subrange(0, i as int),
        decreases n - i,
    {
        out.push(s.get_char(i));
        i = i + 1;
        assert(out@ =~= s@.subrange(0, i as int));
    }
    assert(s@.subrange(0, n as int) =~= s@);
    out
}

/// The characters that the trimming of quote tokens removes: quotes, commas,
/// semicolons and square brackets.
pub open spec fn is_quote_punct(c: char) -> bool {
    c == '"' || c == '\'' || c == ',' || c == ';' || c == '[' || c == ']'
}

/// The classes of characters that can be trimmed off a string's ends.
#[derive(Clone, Copy)]
pub enum CharClass {
    WhiteSpace,
    QuotePunct,
}

pub open spec fn in_class(class: CharClass, c: char) -> bool {
    match class {
        CharClass::WhiteSpace => is_white_space(c),
        CharClass::QuotePunct => is_quote_punct(c),
    }
}

pub fn is_in_class(class: CharClass, c: char) -> (r: bool)
    ensures
        r == in_class(class, c),
{
    match class {
        CharClass::WhiteSpace => white_space(c),
        CharClass::QuotePunct => c == '"' || c == '\'' || c == ',' || c == ';' || c == '[' || c == ']',
    }
}

/// Index of the first character of `s` outside `class` (or its length).
pub open spec fn strip_start_index(s: Seq<char>, class: CharClass) -> int
    decreases s.len(),
{
    if s.len() == 0 || !in_class(class, s[0]) {
        0
    } else {
        1 + strip_start_index(s.drop_first(), class)
    }
}

/// `s` without its trailing characters of `class`.
pub open spec fn strip_end(s: Seq<char>, class: CharClass) -> Seq<char>
    decreases s.len(),
{
    if s.len() == 0 || !in_class(class, s.last()) {
        s
    } else {
        strip_end(s.drop_last(), class)
    }
}

/// `s` without leading and trailing characters of `class` (as
/// `str::trim_matches`).
pub open spec fn strip(s: Seq<char>, class: CharClass) -> Seq<char> {
    strip_end(s.subrange(strip_start_index(s, class), s.len() as int), class)
}

/// `s` without leading and trailing white space (as `str::trim`).
pub open spec fn trim(s: Seq<char>) -> Seq<char> {
    strip(s, CharClass::WhiteSpace)
}

proof fn lemma_strip_start_index(s: Seq<char>, class: CharClass, i: int)
    requires
        0 <= i <= s.len(),
        forall|k: int| 0 <= k < i ==> in_class(class, s[k]),
        i == s.len() || !in_class(class, s[i]),
    ensures
        strip_start_index(s, class) == i,
    decreases s.len(),
{
    if s.len() > 0 && in_class(class, s[0]) {
        lemma_strip_start_index(s.drop_first(), class, i - 1);
    }
}

proof fn lemma_strip_end(s: Seq<char>, class: CharClass, j: int)
    requires
        0 <= j <= s.len(),
        forall|k: int| j <= k < s.len() ==> in_class(class, s[k]),
        j == 0 || !in_class(class, s[j - 1]),
    ensures
        strip_end(s, class) == s.subrange(0, j),
    decreases s.len(),
{
    if s.len() == 0 {
        assert(s.subrange(0, j) =~= s);
    } else if !in_class(class, s.last()) {
        assert(s.subrange(0, j) =~= s);
    } else {
        lemma_strip_end(s.drop_last(), class, j);
        assert(s.drop_last().subrange(0, j) =~= s.subrange(0, j));
    }
}

/// The bounds `[i, j)` of `s[lo..hi]` without its leading and trailing
/// characters of `class`.
pub fn strip_bounds(s: &Vec<char>, lo: usize, hi: usize, class: CharClass) -> (r: (usize, usize))
    requires
        lo <= hi <= s@.len(),
    ensures
        lo <= r.0 <= r.1 <= hi,
        s@.subrange(r.0 as int, r.1 as int) == strip(s@.subrange(lo as int, hi as int), class),
{
    let ghost t = s@.subrange(lo as int, hi as int);
    let mut i: usize = lo;
    while i < hi && is_in_class(class, s[i])
        invariant
            lo <= i <= hi <= s@.len(),
            forall|k: int| lo <= k < i ==> in_class(class, s@[k]),
        decreases hi - i,
    {
        i = i + 1;
    }
    proof {
        lemma_strip_start_index(t, class, i - lo);
    }
    let mut j: usize = hi;
    while j > i && is_in_class(class, s[j - 1])
        invariant
            i <= j <= hi <= s@.len(),
            forall|k: int| j <= k < hi ==> in_class(class, s@[k]),
        decreases j,
    {
        j = j - 1;
    }
    proof {
        let u = t.subrange(i - lo, t.len() as int);
        assert(u =~= s@.subrange(i as int, hi as int));
        lemma_strip_end(u, class, j - i);
        assert(u.subrange(0, j - i) =~= s@.subrange(i as int, j as int));
    }
    (i, j)
}

/// The bounds `[i, j)` of `s` without leading and trailing white space.
pub fn trim_bounds(s: &Vec<char>) -> (r: (usize, usize))
    ensures
        r.0 <= r.1 <= s@.len(),
        s@.subrange(r.0 as int, r.1 as int) == trim(s@),
{
    let r = strip_bounds(s, 0, s.len(), CharClass::WhiteSpace);
    assert(s@.subrange(0, s@.len() as int) =~= s@);
    r
}

/// The value of an ASCII hexadecimal digit, or `None`.
pub open spec fn hex_digit_value(c: char) -> Option<u8> {
    if '0' <= c <= '9' {
        Some((c as u32 - '0' as u32) as u8)
    } else if 'a' <= c <= 'f' {
        Some((c as u32 - 'a' as u32 + 10) as u8)
    } else if 'A' <= c <= 'F' {
        Some((c as u32 - 'A' as u32 + 10) as u8)
    } else {
        None
    }
}

pub fn hex_digit(c: char) -> (r: Option<u8>)
    ensures
        r == hex_digit_value(c),
{
    if '0' <= c && c <= '9' {
        Some((c as u32 - '0' as u32) as u8)
    } else if 'a' <= c && c <= 'f' {
        Some((c as u32 - 'a' as u32 + 10) as u8)
    } else if 'A' <= c && c <= 'F' {
        Some((c as u32 - 'A' as u32 + 10) as u8)
    } else {
        None
    }
}

/// ASCII white space (as `char::is_ascii_whitespace`): space, tab, line feed,
/// form feed and carriage return.
pub open spec fn is_ascii_white_space(c: char) -> bool {
    c == ' ' || c == '\t' || c == '\n' || c == '\x0C' || c == '\r'
}

/// Whether two strings hold the same characters.
pub fn str_equals(a: &str, b: &str) -> (r: bool)
    ensures
        r == (a@ == b@),
{
    let x = chars_of(a);
    let y = chars_of(b);
    if x.len() != y.len() {
        assert(a@.len() != b@.len());
        return false;
    }
    let mut i: usize = 0;
    while i < x.len()
        invariant
            0 <= i <= x@.len(),
            x@.len() == y@.len(),
            x@ == a@,
            y@ == b@,
            forall|k: int| 0 <= k < i ==> x@[k] == y@[k],
        decreases x@.len() - i,
    {
        if x[i] != y[i] {
            assert(x@[i as int] != y@[i as int]);
            assert(a@[i as int] != b@[i as int]);
            assert(a@ != b@);
            return false;
        }
        i = i + 1;
    }
    assert(x@ =~= y@);
    true
}

/// The ASCII lower case of a character.
pub open spec fn ascii_lower_char(c: char) -> char {
    if 'A' <= c <= 'Z' {
        ((c as u32) + 32) as char
    } else {
        c
    }
}

/// The two texts are equal up to ASCII case (as `str::eq_ignore_ascii_case`).
pub open spec fn eq_ignore_ascii_case(a: Seq<char>, b: Seq<char>) -> bool {
    a.len() == b.len() && forall|k: int| 0 <= k < a.len() ==> ascii_lower_char(a[k]) == ascii_lower_char(b[k])
}

/// A setting reads as on: after trimming white space it is not empty, not
/// `0` and not `false` in any ASCII case.
pub open spec fn is_truthy(value: Seq<char>) -> bool {
    let t = trim(value);
    t.len() != 0 && t != "0"@ && !eq_ignore_ascii_case(t, "false"@)
}

/// Whether a setting, when it is set at all, reads as on.
pub fn truthy(value: Option<&str>) -> (r: bool)
    ensures
        r == (value matches Some(v) && is_truthy(v@)),
{
    let v = match value {
        Some(v) => v,
        None => return false,
    };
    let chars = chars_of(v);
    let (start, end) = trim_bounds(&chars);
    let ghost t = chars@.subrange(start as int, end as int);
    assert(t == trim(v@));
    if start == end {
        return false;
    }
    proof {
        reveal_strlit("0");
        reveal_strlit("false");
    }
    assert("0"@ =~= seq!['0']);
    assert("false"@ =~= seq!['f', 'a', 'l', 's', 'e']);
    if end - start == 1 && chars[start] == '0' {
        assert(t =~= "0"@);
        return false;
    }
    if end - start != 5 {
        assert(t != "0"@) by {
            if end - start == 1 {
                assert(t[0] != '0');
            }
        }
        assert(!eq_ignore_ascii_case(t, "false"@));
        return true;
    }
    let word: [char; 5] = ['f', 'a', 'l', 's', 'e'];
    let upper: [char; 5] = ['F', 'A', 'L', 'S', 'E'];
    let mut k: usize = 0;
    while k < 5
        invariant
            0 <= k <= 5,
            end - start == 5,
            start <= end <= chars@.len(),
            t == chars@.subrange(start as int, end as int),
            t == trim(v@),
            value == Some(v),
            word@ == seq!['f', 'a', 'l', 's', 'e'],
            upper@ == seq!['F', 'A', 'L', 'S', 'E'],
            "false"@ == seq!['f', 'a', 'l', 's', 'e'],
            "0"@ == seq!['0'],
            forall|j: int| 0 <= j < k ==> ascii_lower_char(t[j]) == word@[j],
        decreases 5 - k,
    {
        let c = chars[start + k];
        if c != word[k] && c != upper[k] {
            assert(ascii_lower_char(t[k as int]) != word@[k as int]);
            assert(!eq_ignore_ascii_case(t, "false"@));
            assert(t != "0"@);
            return true;
        }
        k = k + 1;
    }
    assert(eq_ignore_ascii_case(t, "false"@));
    false
}

/// The decimal digits of `n`.
pub open spec fn decimal(n: nat) -> Seq<char>
    decreases n,
{
    if n < 10 {
        seq![(('0' as u32) + n) as char]
    } else {
        decimal(n / 10) + seq![(('0' as u32) + n % 10) as char]
    }
}

fn append_decimal(out: &mut String, n: u64)
    ensures
        final(out)@ == old(out)@ + decimal(n as nat),
    decreases n,
{
    let digits: &'static str = "0123456789";
    proof {
        reveal_strlit("0123456789");
    }
    assert(digits@ =~= seq!['0', '1', '2', '3', '4', '5', '6', '7', '8', '9']);
    assert(digits.is_ascii());
    if n >= 10 {
        append_decimal(out, n / 10);
    }
    let d = (n % 10) as usize;
    let one = digits.substring_ascii(d, d + 1);
    assert(one@ =~= seq![(('0' as u32) + n % 10) as char]);
    let ghost before = out@;
    out.append(one);
    proof {
        if n >= 10 {
            assert(decimal(n as nat) == decimal((n / 10) as nat) + seq![(('0' as u32) + n % 10) as char]);
        } else {
            assert(n % 10 == n);
        }
        assert(out@ =~= old(out)@ + decimal(n as nat));
    }
}

/// The decimal digits of a number (what `u64::to_string` gives).
pub fn decimal_string(n: u64) -> (r: String)
    ensures
        r@ == decimal(n as nat),
{
    let mut out = String::new();
    append_decimal(&mut out, n);
    assert(out@ =~= decimal(n as nat));
    out
}

} // verus!
