//! The help text.

use vstd::prelude::*;
use vstd::string::*;
use crate::report::texts;
use crate::request::MAX_PORT_NUMBER;
use crate::text::{decimal, decimal_text};

verus! {

/// The opening of the help text: who the program is when help was asked
/// for, what went wrong when the arguments were refused for `reason`.
pub open spec fn help_heading(had_error: bool, reason: Seq<char>) -> Seq<Seq<char>> {
    if had_error {
        seq![
            "The usage of arguments has been entered wrong because "@ + reason + ". "@,
            "Please follow the following usage:"@,
        ]
    } else {
        seq![
            "Port Sniffer by <xylian@xylian.org>"@,
            "The Port Sniffer prints the on-going port number of the target host."@,
            "A test can be false negative if the target host does not response to it. So even if the port is open but no host is responding to it, the test will be negative."@,
            ""@,
            " Usage:"@,
        ]
    }
}

/// The four lines that list the flags.
pub open spec fn help_flags() -> Seq<Seq<char>> {
    seq![
        "  -h or --help                    | this help message"@,
        "  -t IPADDRESS PORT               | tests if the entered port is open"@,
        "  -r IPADDRESS PORT_FROM PORT_TO  | tests if the range of ports is open"@,
        "  -a IPADDRESS THREADS_COUNT      | tests if the range of ports (1 - "@ + decimal_text(
            MAX_PORT_NUMBER as nat,
        ) + ") is open"@,
    ]
}

/// Writes the help text, line by line: the heading, then the flags.
pub fn help_lines(had_error: bool, reason: &str) -> (lines: Vec<String>)
    ensures
        lines@.len() == (help_heading(had_error, reason@) + help_flags()).len(),
        texts(lines@) == help_heading(had_error, reason@) + help_flags(),
{
    let mut lines: Vec<String> = Vec::new();
    if had_error {
        lines.push(
            String::from_str("The usage of arguments has been entered wrong because ").concat(
                reason,
            ).concat(". "),
        );
        lines.push(String::from_str("Please follow the following usage:"));
    } else {
        lines.push(String::from_str("Port Sniffer by <xylian@xylian.org>"));
        lines.push(
            String::from_str("The Port Sniffer prints the on-going port number of the target host."),
        );
        lines.push(
            String::from_str(
                "A test can be false negative if the target host does not response to it. So even if the port is open but no host is responding to it, the test will be negative.",
            ),
        );
        lines.push(String::from_str(""));
        lines.push(String::from_str(" Usage:"));
    }
    lines.push(String::from_str("  -h or --help                    | this help message"));
    lines.push(
        String::from_str("  -t IPADDRESS PORT               | tests if the entered port is open"),
    );
    lines.push(
        String::from_str("  -r IPADDRESS PORT_FROM PORT_TO  | tests if the range of ports is open"),
    );
    let ceiling: String = decimal(MAX_PORT_NUMBER as u64);
    lines.push(
        String::from_str(
            "  -a IPADDRESS THREADS_COUNT      | tests if the range of ports (1 - ",
        ).concat(ceiling.as_str()).concat(") is open"),
    );
    proof {
        assert(texts(lines@) =~= help_heading(had_error, reason@) + help_flags());
    }
    lines
}

} // verus!
