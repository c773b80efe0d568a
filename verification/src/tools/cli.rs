//! The command line of the quote verifier: its commands, and the flags and
//! values taken out of the argument list.

use vstd::prelude::*;
use vstd::string::*;

use crate::text::{chars_of, str_equals};
use crate::tools::hex::{parse_hex, parse_hex_array};
use crate::tools::quote::{MEASUREMENT_LEN, PUBLIC_KEY_LEN};

verus! {

/// The characters of each argument.
pub open spec fn texts(args: Seq<String>) -> Seq<Seq<char>> {
    args.map_values(|a: String| a@)
}

/// The first position of `flag` among the arguments.
pub open spec fn position_of(args: Seq<Seq<char>>, flag: Seq<char>) -> Option<int> {
    if exists|i: int| 0 <= i < args.len() && args[i] == flag && forall|j: int| 0 <= j < i ==> args[j] != flag {
        Some(choose|i: int| 0 <= i < args.len() && args[i] == flag && forall|j: int| 0 <= j < i ==> args[j] != flag)
    } else {
        None
    }
}

/// `s` starts with `prefix`.
pub open spec fn has_prefix(s: Seq<char>, prefix: Seq<char>) -> bool {
    prefix.len() <= s.len() && s.subrange(0, prefix.len() as int) == prefix
}

/// The first position of an argument that starts with `prefix`.
pub open spec fn position_with_prefix(args: Seq<Seq<char>>, prefix: Seq<char>) -> Option<int> {
    if exists|i: int|
        0 <= i < args.len() && has_prefix(args[i], prefix) && forall|j: int| 0 <= j < i ==> !has_prefix(args[j], prefix)
    {
        Some(
            choose|i: int|
                0 <= i < args.len() && has_prefix(args[i], prefix) && forall|j: int|
                    0 <= j < i ==> !has_prefix(args[j], prefix),
        )
    } else {
        None
    }
}

fn find_arg(args: &Vec<String>, flag: &str) -> (r: Option<usize>)
    ensures
        match r {
            Some(i) => position_of(texts(args@), flag@) == Some(i as int),
            None => position_of(texts(args@), flag@) is None,
        },
{
    let ghost t = texts(args@);
    let mut i: usize = 0;
    while i < args.len()
        invariant
            0 <= i <= args@.len(),
            t == texts(args@),
            forall|j: int| 0 <= j < i ==> t[j] != flag@,
        decreases args@.len() - i,
    {
        if str_equals(args[i].as_str(), flag) {
            proof {
                let c = choose|c: int| 0 <= c < t.len() && t[c] == flag@ && forall|j: int| 0 <= j < c ==> t[j] != flag@;
                assert(t[i as int] == flag@);
                if c < i {
                } else if c > i {
                    assert(t[i as int] != flag@);
                }
            }
            return Some(i);
        }
        i = i + 1;
    }
    None
}

fn starts_with_text(s: &str, prefix: &str) -> (r: bool)
    ensures
        r == has_prefix(s@, prefix@),
{
    let a = chars_of(s);
    let p = chars_of(prefix);
    if p.len() > a.len() {
        return false;
    }
    let mut k: usize = 0;
    while k < p.len()
        invariant
            p@ == prefix@,
            a@ == s@,
            p@.len() <= a@.len(),
            0 <= k <= p@.len(),
            forall|j: int| 0 <= j < k ==> a@[j] == p@[j],
        decreases p@.len() - k,
    {
        if a[k] != p[k] {
            assert(s@.subrange(0, prefix@.len() as int)[k as int] != prefix@[k as int]);
            return false;
        }
        k = k + 1;
    }
    assert(s@.subrange(0, prefix@.len() as int) =~= prefix@);
    true
}

fn find_arg_with_prefix(args: &Vec<String>, prefix: &str) -> (r: Option<usize>)
    ensures
        match r {
            Some(i) => position_with_prefix(texts(args@), prefix@) == Some(i as int),
            None => position_with_prefix(texts(args@), prefix@) is None,
        },
{
    let ghost t = texts(args@);
    let mut i: usize = 0;
    while i < args.len()
        invariant
            0 <= i <= args@.len(),
            t == texts(args@),
            forall|j: int| 0 <= j < i ==> !has_prefix(t[j], prefix@),
        decreases args@.len() - i,
    {
        if starts_with_text(args[i].as_str(), prefix) {
            proof {
                let c = choose|c: int|
                    0 <= c < t.len() && has_prefix(t[c], prefix@) && forall|j: int|
                        0 <= j < c ==> !has_prefix(t[j], prefix@);
                assert(has_prefix(t[i as int], prefix@));
                if c > i {
                    assert(!has_prefix(t[i as int], prefix@));
                }
            }
            return Some(i);
        }
        i = i + 1;
    }
    None
}

/// The value that `take_value` finds for `flag`: `Some(Some(v))`, or
/// `Some(None)` when the flag is the last argument, or `None` when it is not
/// given.
pub open spec fn value_of(t: Seq<Seq<char>>, flag: Seq<char>) -> Option<Option<Seq<char>>> {
    match position_of(t, flag) {
        Some(i) => if i + 1 < t.len() {
            Some(Some(t[i + 1]))
        } else {
            Some(None)
        },
        None => match position_with_prefix(t, flag + "="@) {
            Some(j) => Some(Some(t[j].subrange(flag.len() as int + 1, t[j].len() as int))),
            None => None,
        },
    }
}

/// The arguments left after `take_value` took `flag` and its value.
pub open spec fn after_value(t: Seq<Seq<char>>, flag: Seq<char>) -> Seq<Seq<char>> {
    match position_of(t, flag) {
        Some(i) => if i + 1 < t.len() {
            t.remove(i).remove(i)
        } else {
            t.remove(i)
        },
        None => match position_with_prefix(t, flag + "="@) {
            Some(j) => t.remove(j),
            None => t,
        },
    }
}

/// The arguments left after `take_flag` took `flag`.
pub open spec fn after_flag(t: Seq<Seq<char>>, flag: Seq<char>) -> Seq<Seq<char>> {
    match position_of(t, flag) {
        Some(i) => t.remove(i),
        None => t,
    }
}

proof fn lemma_texts_remove(s: Seq<String>, i: int)
    requires
        0 <= i < s.len(),
    ensures
        texts(s.remove(i)) == texts(s).remove(i),
{
    assert(texts(s.remove(i)) =~= texts(s).remove(i));
}

/// Takes the flag `flag` out of the arguments; whether it was there.
pub fn take_flag(args: &mut Vec<String>, flag: &str) -> (r: bool)
    ensures
        match position_of(texts(old(args)@), flag@) {
            Some(i) => r && final(args)@ == old(args)@.remove(i),
            None => !r && final(args)@ == old(args)@,
        },
        r == position_of(texts(old(args)@), flag@) is Some,
        texts(final(args)@) == after_flag(texts(old(args)@), flag@),
{
    match find_arg(args, flag) {
        Some(i) => {
            proof {
                lemma_texts_remove(args@, i as int);
            }
            args.remove(i);
            true
        },
        None => false,
    }
}

/// Takes the value of the option `flag` out of the arguments: the argument
/// after the first `flag`, or else what follows `flag=` in the first argument
/// that starts so. A `flag` with nothing after it is an error.
pub fn take_value(args: &mut Vec<String>, flag: &str) -> (r: Result<Option<String>, String>)
    ensures
        match position_of(texts(old(args)@), flag@) {
            Some(i) => if i + 1 < old(args)@.len() {
                r matches Ok(Some(v)) && v@ == old(args)@[i + 1]@ && final(args)@ == old(args)@.remove(
                    i,
                ).remove(i)
            } else {
                r matches Err(e) && e@ == flag@ + " needs a value"@ && final(args)@ == old(
                    args,
                )@.remove(i)
            },
            None => match position_with_prefix(texts(old(args)@), flag@ + "="@) {
                Some(j) => r matches Ok(Some(v)) && v@ == old(args)@[j]@.subrange(
                    flag@.len() as int + 1,
                    old(args)@[j]@.len() as int,
                ) && final(args)@ == old(args)@.remove(j),
                None => r == Ok::<Option<String>, String>(None) && final(args)@ == old(args)@,
            },
        },
        texts(final(args)@) == after_value(texts(old(args)@), flag@),
        match value_of(texts(old(args)@), flag@) {
            Some(Some(v)) => r matches Ok(Some(x)) && x@ == v,
            Some(None) => r matches Err(e) && e@ == flag@ + " needs a value"@,
            None => r == Ok::<Option<String>, String>(None),
        },
{
    let ghost a0 = args@;
    proof {
        if let Some(i) = position_of(texts(a0), flag@) {
            lemma_texts_remove(a0, i);
            if i + 1 < a0.len() {
                lemma_texts_remove(a0.remove(i), i);
            }
        } else if let Some(j) = position_with_prefix(texts(a0), flag@ + "="@) {
            lemma_texts_remove(a0, j);
        }
    }
    match find_arg(args, flag) {
        Some(i) => {
            args.remove(i);
            if i >= args.len() {
                let mut msg = String::from_str(flag);
                msg.append(" needs a value");
                return Err(msg);
            }
            let v = args.remove(i);
            return Ok(Some(v));
        },
        None => {},
    }
    let mut prefix = String::from_str(flag);
    proof {
        reveal_strlit("=");
    }
    prefix.append("=");
    match find_arg_with_prefix(args, prefix.as_str()) {
        Some(j) => {
            let arg = args.remove(j);
            let n = arg.as_str().unicode_len();
            let plen = prefix.as_str().unicode_len();
            let value = String::from_str(arg.as_str().substring_char(plen, n));
            Ok(Some(value))
        },
        None => Ok(None),
    }
}

/// The value of a required option.
pub fn required_value(args: &mut Vec<String>, flag: &str) -> (r: Result<String, String>)
    ensures
        match position_of(texts(old(args)@), flag@) {
            Some(i) => if i + 1 < old(args)@.len() {
                r matches Ok(v) && v@ == old(args)@[i + 1]@
            } else {
                r matches Err(e) && e@ == flag@ + " needs a value"@
            },
            None => match position_with_prefix(texts(old(args)@), flag@ + "="@) {
                Some(j) => r matches Ok(v) && v@ == old(args)@[j]@.subrange(
                    flag@.len() as int + 1,
                    old(args)@[j]@.len() as int,
                ),
                None => r matches Err(e) && e@ == "missing required "@ + flag@,
            },
        },
        texts(final(args)@) == after_value(texts(old(args)@), flag@),
{
    match take_value(args, flag) {
        Ok(Some(v)) => Ok(v),
        Ok(None) => {
            let mut msg = String::from_str("missing required ");
            msg.append(flag);
            Err(msg)
        },
        Err(e) => Err(e),
    }
}

/// The arguments joined with single spaces.
pub open spec fn joined(args: Seq<Seq<char>>) -> Seq<char>
    decreases args.len(),
{
    if args.len() == 0 {
        Seq::empty()
    } else if args.len() == 1 {
        args[0]
    } else {
        joined(args.drop_last()) + " "@ + args.last()
    }
}

/// No argument may be left over.
pub fn reject_extra(args: &[String]) -> (r: Result<(), String>)
    ensures
        args@.len() == 0 <==> r is Ok,
        r matches Err(e) ==> e@ == "unexpected arguments: "@ + joined(texts(args@)),
{
    if args.len() == 0 {
        return Ok(());
    }
    let mut msg = String::from_str("unexpected arguments: ");
    let ghost start = msg@;
    let mut i: usize = 0;
    while i < args.len()
        invariant
            0 <= i <= args@.len(),
            msg@ == start + joined(texts(args@.subrange(0, i as int))),
        decreases args@.len() - i,
    {
        let ghost before = msg@;
        if i > 0 {
            msg.append(" ");
        }
        msg.append(args[i].as_str());
        proof {
            let s = texts(args@.subrange(0, i + 1));
            assert(s.drop_last() =~= texts(args@.subrange(0, i as int)));
            assert(s.last() == args@[i as int]@);
            if i == 0 {
                assert(texts(args@.subrange(0, 0)) =~= Seq::<Seq<char>>::empty());
                assert(msg@ =~= start + joined(s));
            } else {
                assert(msg@ =~= start + joined(s));
            }
        }
        i = i + 1;
    }
    assert(args@.subrange(0, args@.len() as int) =~= args@);
    Err(msg)
}

/// A required option that holds `N` bytes in hex.
pub fn required_hex<const N: usize>(args: &mut Vec<String>, flag: &str, name: &str) -> (r: Result<
    [u8; N],
    String,
>)
    requires
        N <= usize::MAX / 2,
    ensures
        texts(final(args)@) == after_value(texts(old(args)@), flag@),
        match value_of(texts(old(args)@), flag@) {
            Some(Some(v)) => match parse_hex(v, N as int) {
                Some(b) => r matches Ok(x) && x@ == b,
                None => r is Err,
            },
            Some(None) => r is Err,
            None => r matches Err(e) && e@ == "missing required "@ + flag@,
        },
{
    let value = match required_value(args, flag) {
        Ok(v) => v,
        Err(e) => return Err(e),
    };
    parse_hex_array(value.as_str(), name)
}

/// What an optional hex option gives: `Some(None)` when it is not given,
/// `Some(Some(bytes))` when its value is `n` bytes in hex, `None` (an error)
/// otherwise.
pub open spec fn hex_option(v: Option<Option<Seq<char>>>, n: int) -> Option<Option<Seq<u8>>> {
    match v {
        None => Some(None),
        Some(None) => None,
        Some(Some(text)) => match parse_hex(text, n) {
            Some(b) => Some(Some(b)),
            None => None,
        },
    }
}

/// An optional option that holds `N` bytes in hex.
pub fn optional_hex<const N: usize>(args: &mut Vec<String>, flag: &str, name: &str) -> (r: Result<
    Option<[u8; N]>,
    String,
>)
    requires
        N <= usize::MAX / 2,
    ensures
        texts(final(args)@) == after_value(texts(old(args)@), flag@),
        match hex_option(value_of(texts(old(args)@), flag@), N as int) {
            Some(Some(b)) => r matches Ok(Some(x)) && x@ == b,
            Some(None) => r == Ok::<Option<[u8; N]>, String>(None),
            None => r is Err,
        },
{
    match take_value(args, flag) {
        Ok(Some(v)) => match parse_hex_array(v.as_str(), name) {
            Ok(b) => Ok(Some(b)),
            Err(e) => Err(e),
        },
        Ok(None) => Ok(None),
        Err(e) => Err(e),
    }
}

/// The verifier's commands.
#[derive(Debug, PartialEq, Eq)]
pub enum Command {
    Verify,
    Inspect,
    Help,
    /// A command the verifier does not know.
    Unknown(String),
}

/// Takes the command, the first argument, out of the arguments; `None` when
/// there is none.
pub fn take_command(args: &mut Vec<String>) -> (r: Option<Command>)
    ensures
        old(args)@.len() == 0 <==> r is None,
        old(args)@.len() == 0 ==> final(args)@ == old(args)@,
        old(args)@.len() > 0 ==> final(args)@ == old(args)@.remove(0) && ({
            let c = old(args)@[0]@;
            if c == "verify"@ {
                r == Some(Command::Verify)
            } else if c == "inspect"@ {
                r == Some(Command::Inspect)
            } else if c == "help"@ || c == "--help"@ || c == "-h"@ {
                r == Some(Command::Help)
            } else {
                r matches Some(Command::Unknown(u)) && u@ == c
            }
        }),
{
    if args.len() == 0 {
        return None;
    }
    let command = args.remove(0);
    let c = command.as_str();
    if str_equals(c, "verify") {
        Some(Command::Verify)
    } else if str_equals(c, "inspect") {
        Some(Command::Inspect)
    } else if str_equals(c, "help") || str_equals(c, "--help") || str_equals(c, "-h") {
        Some(Command::Help)
    } else {
        Some(Command::Unknown(command))
    }
}

/// What `verify` is asked to check.
pub struct VerifyOptions {
    pub expected_mrsigner: [u8; MEASUREMENT_LEN],
    pub expected_mrenclave: Option<[u8; MEASUREMENT_LEN]>,
    pub expected_public_key: Option<[u8; PUBLIC_KEY_LEN]>,
    pub allow_debug: bool,
    pub allow_advisory: bool,
    pub pccs_url: Option<String>,
}

/// The bytes of an optional array.
pub open spec fn opt_bytes<const N: usize>(o: Option<[u8; N]>) -> Option<Seq<u8>> {
    match o {
        Some(a) => Some(a@),
        None => None,
    }
}

/// What `verify` is asked, from its arguments `t0`: the measurements and key
/// expected, the two flags and the PCCS address; `None` when an option is
/// missing, malformed, or an argument is left over.
pub open spec fn verify_options_of(t0: Seq<Seq<char>>) -> Option<
    (Seq<u8>, Option<Seq<u8>>, Option<Seq<u8>>, bool, bool, Option<Seq<char>>),
> {
    let signer = match value_of(t0, "--mrsigner"@) {
        Some(Some(v)) => parse_hex(v, 32),
        _ => None,
    };
    let t1 = after_value(t0, "--mrsigner"@);
    let mrenclave = hex_option(value_of(t1, "--mrenclave"@), 32);
    let t2 = after_value(t1, "--mrenclave"@);
    let public_key = hex_option(value_of(t2, "--public-key"@), 32);
    let t3 = after_value(t2, "--public-key"@);
    let allow_debug = position_of(t3, "--allow-debug"@) is Some;
    let t4 = after_flag(t3, "--allow-debug"@);
    let allow_advisory = position_of(t4, "--allow-advisory"@) is Some;
    let t5 = after_flag(t4, "--allow-advisory"@);
    let pccs = value_of(t5, "--pccs-url"@);
    let t6 = after_value(t5, "--pccs-url"@);
    if signer is Some && mrenclave is Some && public_key is Some && pccs != Some(None::<Seq<char>>)
        && t6.len() == 0 {
        Some(
            (
                signer->0,
                mrenclave->0,
                public_key->0,
                allow_debug,
                allow_advisory,
                match pccs {
                    Some(Some(u)) => Some(u),
                    _ => None,
                },
            ),
        )
    } else {
        None
    }
}

/// The options of `verify`: `--mrsigner` (required), `--mrenclave` and
/// `--public-key` in hex, the flags `--allow-debug` and `--allow-advisory`,
/// and `--pccs-url`; nothing else may be given.
pub fn verify_options(args: Vec<String>) -> (r: Result<VerifyOptions, String>)
    ensures
        r is Ok <==> verify_options_of(texts(args@)) is Some,
        r matches Ok(o) ==> verify_options_of(texts(args@)) == Some(
            (
                o.expected_mrsigner@,
                opt_bytes(o.expected_mrenclave),
                opt_bytes(o.expected_public_key),
                o.allow_debug,
                o.allow_advisory,
                match o.pccs_url {
                    Some(u) => Some(u@),
                    None => None,
                },
            ),
        ),
        value_of(texts(args@), "--mrsigner"@) is None ==> (r matches Err(e) && e@
            == "missing required --mrsigner"@),
{
    let mut args = args;
    proof {
        reveal_strlit("--mrsigner");
        reveal_strlit("missing required ");
        reveal_strlit("missing required --mrsigner");
        assert("missing required "@ + "--mrsigner"@ =~= "missing required --mrsigner"@);
    }
    let expected_mrsigner = match required_hex::<MEASUREMENT_LEN>(&mut args, "--mrsigner", "MRSIGNER") {
        Ok(v) => v,
        Err(e) => return Err(e),
    };
    let expected_mrenclave = match optional_hex::<MEASUREMENT_LEN>(&mut args, "--mrenclave", "MRENCLAVE") {
        Ok(v) => v,
        Err(e) => return Err(e),
    };
    let expected_public_key = match optional_hex::<PUBLIC_KEY_LEN>(&mut args, "--public-key", "public key") {
        Ok(v) => v,
        Err(e) => return Err(e),
    };
    let allow_debug = take_flag(&mut args, "--allow-debug");
    let allow_advisory = take_flag(&mut args, "--allow-advisory");
    let pccs_url = match take_value(&mut args, "--pccs-url") {
        Ok(v) => v,
        Err(e) => return Err(e),
    };
    match reject_extra(args.as_slice()) {
        Ok(()) => {},
        Err(e) => return Err(e),
    }
    Ok(VerifyOptions {
        expected_mrsigner,
        expected_mrenclave,
        expected_public_key,
        allow_debug,
        allow_advisory,
        pccs_url,
    })
}

} // verus!
