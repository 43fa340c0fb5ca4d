//! Command-line surface: `program <quotes-source> [port]`.

use vstd::prelude::*;

verus! {

/// The port that is served when the command line names none.
pub const DEFAULT_PORT: u16 = 10017;

/// True for the decimal digits `0` to `9`.
pub open spec fn is_digit(c: char) -> bool {
    '0' <= c <= '9'
}

/// True when `text` is made of decimal digits only.
pub open spec fn all_digits(text: Seq<char>) -> bool {
    forall|i: int| 0 <= i < text.len() ==> is_digit(#[trigger] text[i])
}

/// The number that the digits of `digits` write in base ten.
pub open spec fn decimal_value(digits: Seq<char>) -> nat
    decreases digits.len(),
{
    if digits.len() == 0 {
        0
    } else {
        10 * decimal_value(digits.drop_last()) + (digits.last() as nat - '0' as nat) as nat
    }
}

/// `text` without a plus sign at its front, if it has one there.
pub open spec fn without_sign(text: Seq<char>) -> Seq<char> {
    if text.len() > 0 && text[0] == '+' {
        text.drop_first()
    } else {
        text
    }
}

/// The port that `text` names: an optional plus sign, then at least one
/// decimal digit and nothing else, writing a number of at most 65535.
pub open spec fn port_of(text: Seq<char>) -> Option<u16> {
    let digits = without_sign(text);
    if digits.len() > 0 && all_digits(digits) && decimal_value(digits) <= 65535 {
        Some(decimal_value(digits) as u16)
    } else {
        None
    }
}

/// More digits never write a smaller number.
proof fn lemma_value_grows(digits: Seq<char>, k: int)
    requires
        0 <= k <= digits.len(),
    ensures
        decimal_value(digits.take(k)) <= decimal_value(digits),
    decreases digits.len() - k,
{
    if k == digits.len() {
        assert(digits.take(k) == digits);
    } else {
        lemma_value_grows(digits.drop_last(), k);
        assert(digits.drop_last().take(k) == digits.take(k));
    }
}

/// Reads a port number.
pub fn parse_port(text: &str) -> (port: Option<u16>)
    ensures
        port == port_of(text@),
{
    let mut value: u32 = 0;
    let mut any_digit: bool = false;
    let mut first: bool = true;
    let ghost digits = without_sign(text@);
    let ghost mut seen: Seq<char> = Seq::empty();
    for c in it: text.chars()
        invariant
            it.seq() == text@,
            digits == without_sign(text@),
            first == (it.index() == 0),
            seen.len() == if first {
                0
            } else {
                it.index() - (text@.len() - digits.len())
            },
            seen == digits.take(seen.len() as int),
            all_digits(seen),
            value == decimal_value(seen),
            value <= 65535,
            any_digit == (seen.len() > 0),
    {
        if first && c == '+' {
            first = false;
        } else {
            first = false;
            proof {
                let at: int = seen.len() as int;
                assert(digits[at] == c);
                assert(digits.take(at + 1) == seen.push(c));
                assert(seen.push(c).drop_last() == seen);
            }
            if c < '0' || c > '9' {
                return None;
            }
            let digit: u32 = c as u32 - '0' as u32;
            value = value * 10 + digit;
            proof {
                seen = seen.push(c);
            }
            if value > 65535 {
                proof {
                    lemma_value_grows(digits, seen.len() as int);
                }
                return None;
            }
            any_digit = true;
        }
    }
    proof {
        assert(seen == digits);
    }
    if any_digit {
        Some(value as u16)
    } else {
        None
    }
}

/// What the command line asks for.
#[derive(Debug)]
pub struct Config {
    /// Where the quotes are read from.
    pub quotes_source: String,
    /// The port that both transports serve.
    pub port: u16,
}

/// Why a command line was refused.
#[derive(Debug, PartialEq, Eq, Structural, Clone, Copy)]
pub enum UsageError {
    /// The quotes source is missing, or more follows the port.
    ArgumentCount,
    /// The port is no number from 0 to 65535.
    InvalidPort,
}

/// Reads the command line; `arguments` starts with the program's name. The
/// quotes source follows, then optionally the port, which is `DEFAULT_PORT`
/// when left out.
pub fn parse_arguments(arguments: &[String]) -> (parsed: Result<Config, UsageError>)
    ensures
        match parsed {
            Ok(config) => {
                &&& arguments@.len() == 2 || arguments@.len() == 3
                &&& config.quotes_source@ == arguments@[1]@
                &&& arguments@.len() == 2 ==> config.port == DEFAULT_PORT
                &&& arguments@.len() == 3 ==> port_of(arguments@[2]@) == Some(config.port)
            },
            Err(UsageError::ArgumentCount) => arguments@.len() != 2 && arguments@.len() != 3,
            Err(UsageError::InvalidPort) => arguments@.len() == 3 && port_of(arguments@[2]@)
                is None,
        },
{
    let count: usize = arguments.len();
    if count != 2 && count != 3 {
        return Err(UsageError::ArgumentCount);
    }
    let port: u16 = if count == 3 {
        match parse_port(arguments[2].as_str()) {
            Some(port) => port,
            None => {
                return Err(UsageError::InvalidPort);
            },
        }
    } else {
        DEFAULT_PORT
    };
    Ok(Config { quotes_source: arguments[1].clone(), port })
}

} // verus!
