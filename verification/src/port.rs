//! Scanning an argument list for the two port options.

use vstd::prelude::*;
use crate::text::{chars_of, first_index, lemma_first_index_is, token_views};

verus! {

/// Peer-to-peer port used when `--port` gives none.
pub const DEFAULT_P2P_PORT: u16 = 3485;

/// RPC port used when `--jsonrpc-port` gives none.
pub const DEFAULT_RPC_PORT: u16 = 8080;

/// Whether `c` is one of the ten decimal digits `0` to `9`.
pub open spec fn is_digit(c: char) -> bool {
    '0' <= c && c <= '9'
}

/// The number that a decimal digit denotes.
pub open spec fn digit_value(c: char) -> nat {
    if is_digit(c) {
        (c as u32 - '0' as u32) as nat
    } else {
        0
    }
}

/// The number that a run of decimal digits denotes.
pub open spec fn decimal_value(digits: Seq<char>) -> nat
    decreases digits.len(),
{
    if digits.len() == 0 {
        0
    } else {
        10 * decimal_value(digits.drop_last()) + digit_value(digits.last())
    }
}

/// Whether `s` holds decimal digits only.
pub open spec fn all_digits(s: Seq<char>) -> bool {
    forall|i: int| 0 <= i < s.len() ==> is_digit(#[trigger] s[i])
}

/// The digits of a port token: the token itself, less one leading `+`.
pub open spec fn unsigned_part(token: Seq<char>) -> Seq<char> {
    if token.len() > 0 && token[0] == '+' {
        token.drop_first()
    } else {
        token
    }
}

/// The port a token denotes: an optional `+`, then one or more decimal
/// digits whose value fits sixteen bits. Anything else denotes none.
pub open spec fn port_value(token: Seq<char>) -> Option<u16> {
    let digits = unsigned_part(token);
    if digits.len() > 0 && all_digits(digits) && decimal_value(digits) <= u16::MAX {
        Some(decimal_value(digits) as u16)
    } else {
        None
    }
}

/// The port that follows the first occurrence of `name` in `args`.
pub open spec fn port_after(args: Seq<Seq<char>>, name: Seq<char>) -> Option<u16> {
    let at = first_index(args, name) + 1;
    if at < args.len() {
        port_value(args[at])
    } else {
        None
    }
}

/// A prefix of a digit run denotes no more than the whole run.
pub proof fn lemma_decimal_prefix(digits: Seq<char>, k: int)
    requires
        0 <= k <= digits.len(),
    ensures
        decimal_value(digits.take(k)) <= decimal_value(digits),
    decreases digits.len(),
{
    if k == digits.len() {
        assert(digits.take(k) == digits);
    } else {
        lemma_decimal_prefix(digits.drop_last(), k);
        assert(digits.drop_last().take(k) == digits.take(k));
    }
}

/// Reads one token as a port number: an optional `+`, then decimal digits
/// that denote at most 65535. Leading zeros are allowed; a sign alone, a
/// `-`, a blank or any other character is not.
pub fn parse_port_token(token: &str) -> (r: Option<u16>)
    ensures
        r == port_value(token@),
{
    let chars = chars_of(token);
    let n = chars.len();
    let start: usize = if n > 0 && chars[0] == '+' {
        1
    } else {
        0
    };
    if start == n {
        return None;
    }
    let ghost digits = unsigned_part(token@);
    let mut value: u32 = 0;
    let mut i: usize = start;
    while i < n
        invariant
            start <= i <= n,
            n == chars.len(),
            digits == chars@.skip(start as int),
            digits == unsigned_part(token@),
            all_digits(digits.take(i - start)),
            value == decimal_value(digits.take(i - start)),
            value <= u16::MAX,
        decreases n - i,
    {
        let c = chars[i];
        if !('0' <= c && c <= '9') {
            assert(!is_digit(digits[i - start]));
            return None;
        }
        let digit = c as u32 - '0' as u32;
        let ghost next = digits.take(i - start + 1);
        proof {
            assert(next.drop_last() == digits.take(i - start));
            lemma_decimal_prefix(digits, i - start + 1);
            assert(all_digits(next));
        }
        value = value * 10 + digit;
        if value > 65535 {
            return None;
        }
        i += 1;
    }
    assert(digits.take(i - start) == digits);
    Some(value as u16)
}

/// Scans `args` for the first token equal to `option_name` and reads the
/// token after it as a port. Gives `None` when the option is missing, is
/// the last token, or is followed by something that is no port.
pub fn parse_port(args: &[String], option_name: &str) -> (r: Option<u16>)
    ensures
        r == port_after(token_views(args@), option_name@),
{
    let name = option_name.to_owned();
    let ghost views = token_views(args@);
    let mut i: usize = 0;
    while i < args.len()
        invariant
            i <= args.len(),
            views == token_views(args@),
            name@ == option_name@,
            forall|j: int| 0 <= j < i ==> views[j] != option_name@,
        decreases args.len() - i,
    {
        if args[i] == name {
            proof {
                lemma_first_index_is(views, option_name@, i as int);
            }
            if i + 1 < args.len() {
                return parse_port_token(args[i + 1].as_str());
            }
            return None;
        }
        i += 1;
    }
    proof {
        lemma_first_index_is(views, option_name@, i as int);
    }
    None
}

/// The peer-to-peer and RPC ports that `args` asks for, each with its
/// default where the option gives none.
pub open spec fn ports_of(args: Seq<Seq<char>>) -> (u16, u16) {
    (
        match port_after(args, "--port"@) {
            Some(p) => p,
            None => DEFAULT_P2P_PORT,
        },
        match port_after(args, "--jsonrpc-port"@) {
            Some(p) => p,
            None => DEFAULT_RPC_PORT,
        },
    )
}

/// Extracts the peer-to-peer port (`--port`) and the RPC port
/// (`--jsonrpc-port`) from `args`, defaulting to 3485 and 8080.
pub fn parse_ports(args: &[String]) -> (r: (u16, u16))
    ensures
        r == ports_of(token_views(args@)),
{
    let p2p_port = parse_port(args, "--port");
    let rpc_port = parse_port(args, "--jsonrpc-port");
    (
        match p2p_port {
            Some(p) => p,
            None => DEFAULT_P2P_PORT,
        },
        match rpc_port {
            Some(p) => p,
            None => DEFAULT_RPC_PORT,
        },
    )
}

/// Whether `args[i]` is the first token equal to `name`.
pub open spec fn is_first_occurrence(args: Seq<Seq<char>>, name: Seq<char>, i: int) -> bool {
    &&& 0 <= i < args.len()
    &&& args[i] == name
    &&& forall|j: int| 0 <= j < i ==> args[j] != name
}

/// The token `1234` denotes port 1234.
pub proof fn lemma_port_value_1234()
    ensures
        port_value("1234"@) == Some(1234u16),
{
    reveal_strlit("1234");
    reveal_with_fuel(decimal_value, 5);
}

/// Where the first `--port` of an argument list is followed by `1234`, the
/// scanner yields 1234, and so does the port pair.
pub proof fn law_port_1234_is_found(args: Seq<Seq<char>>, i: int)
    requires
        is_first_occurrence(args, "--port"@, i),
        i + 1 < args.len(),
        args[i + 1] == "1234"@,
    ensures
        port_after(args, "--port"@) == Some(1234u16),
        ports_of(args).0 == 1234,
{
    lemma_first_index_is(args, "--port"@, i);
    lemma_port_value_1234();
}

/// Where no token is `--port`, the scanner yields nothing and the port pair
/// carries the default peer-to-peer port; likewise for `--jsonrpc-port`.
pub proof fn law_absent_option_gives_default(args: Seq<Seq<char>>)
    ensures
        (forall|j: int| 0 <= j < args.len() ==> args[j] != "--port"@) ==> port_after(
            args,
            "--port"@,
        ) is None && ports_of(args).0 == 3485,
        (forall|j: int| 0 <= j < args.len() ==> args[j] != "--jsonrpc-port"@) ==> port_after(
            args,
            "--jsonrpc-port"@,
        ) is None && ports_of(args).1 == 8080,
{
    if forall|j: int| 0 <= j < args.len() ==> args[j] != "--port"@ {
        lemma_first_index_is(args, "--port"@, args.len() as int);
    }
    if forall|j: int| 0 <= j < args.len() ==> args[j] != "--jsonrpc-port"@ {
        lemma_first_index_is(args, "--jsonrpc-port"@, args.len() as int);
    }
}

/// An option whose first occurrence is the last token has no value: the
/// scanner yields nothing, whatever the option's name.
pub proof fn law_trailing_option_is_absent(args: Seq<Seq<char>>, name: Seq<char>)
    requires
        is_first_occurrence(args, name, args.len() - 1),
    ensures
        port_after(args, name) is None,
{
    lemma_first_index_is(args, name, args.len() - 1);
}

} // verus!
