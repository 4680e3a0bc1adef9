//! From command-line words to a validated scan request.

use vstd::prelude::*;
use vstd::string::*;
use crate::request::{Address, ScanRequest};
use crate::text::{number_of, parse_number};

verus! {

/// Why a list of command-line words is no scan request.
#[derive(Clone, Copy, Debug, PartialEq, Eq, Structural)]
pub enum ArgumentError {
    /// Nothing follows the program's name.
    NoArguments,
    /// Help was asked for; this is no failure, but no request either.
    HelpRequested,
    /// A flag stands alone, without an address.
    MissingAddress,
    /// The word after the flag is no IPv4 or IPv6 address.
    BadAddress,
    /// A full sweep was asked for without a worker count.
    MissingThreads,
    /// The worker count is no number.
    BadThreads,
    /// The first port is missing.
    MissingPortFrom,
    /// The first port is no number.
    BadPortFrom,
    /// The last port of a range is missing.
    MissingPortTo,
    /// The last port of a range is no number.
    BadPortTo,
    /// The ports are numbers, but port 0 or a range that ends before it begins.
    BadRange,
    /// The first word is neither an address nor a known flag.
    InvalidSyntax,
}

impl ArgumentError {
    /// The reason in words, as it is shown to the user.
    pub open spec fn message_text(&self) -> Seq<char> {
        match self {
            ArgumentError::NoArguments => "no arguments have been entered"@,
            ArgumentError::HelpRequested => ""@,
            ArgumentError::MissingAddress => "you must enter a IPADDRESS"@,
            ArgumentError::BadAddress => "IPADDRESS must be IPv4 or IPv6"@,
            ArgumentError::MissingThreads => "you must enter a THREADS_COUNT"@,
            ArgumentError::BadThreads => "THREADS_COUNT must be a number"@,
            ArgumentError::MissingPortFrom => "you must enter PORT_FROM"@,
            ArgumentError::BadPortFrom => "PORT_FROM must be a number"@,
            ArgumentError::MissingPortTo => "you must enter PORT_TO"@,
            ArgumentError::BadPortTo => "PORT_FROM must be a number"@,
            ArgumentError::BadRange => "ports start at 1 and PORT_FROM must not exceed PORT_TO"@,
            ArgumentError::InvalidSyntax => "of invalid syntax"@,
        }
    }

    /// The reason in words; empty where help was asked for.
    pub fn message(&self) -> (r: &'static str)
        ensures
            r@ == self.message_text(),
    {
        match self {
            ArgumentError::NoArguments => "no arguments have been entered",
            ArgumentError::HelpRequested => "",
            ArgumentError::MissingAddress => "you must enter a IPADDRESS",
            ArgumentError::BadAddress => "IPADDRESS must be IPv4 or IPv6",
            ArgumentError::MissingThreads => "you must enter a THREADS_COUNT",
            ArgumentError::BadThreads => "THREADS_COUNT must be a number",
            ArgumentError::MissingPortFrom => "you must enter PORT_FROM",
            ArgumentError::BadPortFrom => "PORT_FROM must be a number",
            ArgumentError::MissingPortTo => "you must enter PORT_TO",
            ArgumentError::BadPortTo => "PORT_FROM must be a number",
            ArgumentError::BadRange => "ports start at 1 and PORT_FROM must not exceed PORT_TO",
            ArgumentError::InvalidSyntax => "of invalid syntax",
        }
    }
}

/// Whether a dash directly followed by `letter` stands somewhere in `word`.
pub open spec fn mentions(word: Seq<char>, letter: char) -> bool {
    exists|i: int| 0 <= i && i + 1 < word.len() && word[i] == '-' && #[trigger] word[i + 1] == letter
}

/// Looks for a dash directly followed by `letter` in `word`.
pub fn has_flag(word: &str, letter: char) -> (r: bool)
    ensures
        r == mentions(word@, letter),
{
    let n: usize = word.unicode_len();
    let mut i: usize = 1;
    let mut after_dash: bool = n > 0 && word.get_char(0) == '-';
    while i < n
        invariant
            n == word@.len(),
            1 <= i,
            i <= n || n == 0,
            after_dash == (i <= n && word@[i - 1] == '-'),
            forall|j: int|
                0 <= j && j + 1 < i ==> !(word@[j] == '-' && #[trigger] word@[j + 1] == letter),
        decreases n - i,
    {
        let c: char = word.get_char(i);
        if after_dash && c == letter {
            assert(word@[i - 1] == '-' && word@[(i - 1) + 1] == letter);
            return true;
        }
        after_dash = c == '-';
        i += 1;
    }
    false
}

/// The request that the words `args` ask for, `args[0]` being the program's
/// name. `first` and `second` say which address `args[1]` and `args[2]`
/// spell, if they spell one.
pub open spec fn requested(args: Seq<String>, first: Option<Address>, second: Option<Address>)
    -> Result<ScanRequest, ArgumentError> {
    if args.len() < 2 {
        Err(ArgumentError::NoArguments)
    } else if first.is_some() {
        Ok(ScanRequest::simple_of(first.unwrap()))
    } else if mentions(args[1]@, 'h') {
        Err(ArgumentError::HelpRequested)
    } else if mentions(args[1]@, 't') || mentions(args[1]@, 'r') || mentions(args[1]@, 'a') {
        if args.len() == 2 {
            Err(ArgumentError::MissingAddress)
        } else if second.is_none() {
            Err(ArgumentError::BadAddress)
        } else if mentions(args[1]@, 'a') {
            if args.len() == 3 {
                Err(ArgumentError::MissingThreads)
            } else if number_of(args[3]@).is_none() {
                Err(ArgumentError::BadThreads)
            } else {
                Ok(ScanRequest::full_sweep_of(second.unwrap(), number_of(args[3]@).unwrap()))
            }
        } else if args.len() == 3 {
            Err(ArgumentError::MissingPortFrom)
        } else if number_of(args[3]@).is_none() {
            Err(ArgumentError::BadPortFrom)
        } else if mentions(args[1]@, 't') {
            match ScanRequest::target_of(second.unwrap(), number_of(args[3]@).unwrap()) {
                Some(request) => Ok(request),
                None => Err(ArgumentError::BadRange),
            }
        } else if args.len() == 4 {
            Err(ArgumentError::MissingPortTo)
        } else if number_of(args[4]@).is_none() {
            Err(ArgumentError::BadPortTo)
        } else {
            match ScanRequest::range_of(
                second.unwrap(),
                number_of(args[3]@).unwrap(),
                number_of(args[4]@).unwrap(),
            ) {
                Some(request) => Ok(request),
                None => Err(ArgumentError::BadRange),
            }
        }
    } else {
        Err(ArgumentError::InvalidSyntax)
    }
}

/// Reads a scan request from command-line words.
///
/// `args[0]` is the program's name. `first` is the address that `args[1]`
/// spells and `second` the one that `args[2]` spells, `None` where the word
/// is missing or spells no address.
pub fn parse_arguments(args: &[String], first: Option<Address>, second: Option<Address>) -> (r:
    Result<ScanRequest, ArgumentError>)
    ensures
        r == requested(args@, first, second),
        r.is_ok() ==> r.unwrap().wf(),
{
    if args.len() < 2 {
        return Err(ArgumentError::NoArguments);
    }
    if let Some(address) = first {
        return Ok(ScanRequest::simple(address));
    }
    let flag: &str = args[1].as_str();
    if has_flag(flag, 'h') {
        return Err(ArgumentError::HelpRequested);
    }
    let target: bool = has_flag(flag, 't');
    let sweep: bool = has_flag(flag, 'a');
    if !(target || has_flag(flag, 'r') || sweep) {
        return Err(ArgumentError::InvalidSyntax);
    }
    if args.len() == 2 {
        return Err(ArgumentError::MissingAddress);
    }
    let address: Address = match second {
        Some(address) => address,
        None => {
            return Err(ArgumentError::BadAddress);
        },
    };
    if sweep {
        if args.len() == 3 {
            return Err(ArgumentError::MissingThreads);
        }
        return match parse_number(args[3].as_str()) {
            Some(workers) => Ok(ScanRequest::full_sweep(address, workers)),
            None => Err(ArgumentError::BadThreads),
        };
    }
    if args.len() == 3 {
        return Err(ArgumentError::MissingPortFrom);
    }
    let port_from: u16 = match parse_number(args[3].as_str()) {
        Some(port) => port,
        None => {
            return Err(ArgumentError::BadPortFrom);
        },
    };
    if target {
        return match ScanRequest::target(address, port_from) {
            Some(request) => Ok(request),
            None => Err(ArgumentError::BadRange),
        };
    }
    if args.len() == 4 {
        return Err(ArgumentError::MissingPortTo);
    }
    let port_to: u16 = match parse_number(args[4].as_str()) {
        Some(port) => port,
        None => {
            return Err(ArgumentError::BadPortTo);
        },
    };
    match ScanRequest::range(address, port_from, port_to) {
        Some(request) => Ok(request),
        None => Err(ArgumentError::BadRange),
    }
}

} // verus!
