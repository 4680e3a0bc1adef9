//! What is shown of a finished scan.

use vstd::prelude::*;
use vstd::string::*;
use crate::outcome::ScanOutcome;
use crate::request::{Flag, ScanRequest};
use crate::text::{decimal, decimal_text};

verus! {

/// The line for a port that is open.
pub open spec fn open_line(port: u16) -> Seq<char> {
    "Port "@ + decimal_text(port as nat) + " is open"@
}

/// The line for a single target that is not open.
pub open spec fn closed_line(port: u16) -> Seq<char> {
    "Port "@ + decimal_text(port as nat) + " is NOT open"@
}

/// The closing line of a listing: how many ports were found, or that none was.
pub open spec fn summary_line(count: nat) -> Seq<char> {
    if count == 0 {
        "NO MATCHES"@
    } else {
        "Found "@ + decimal_text(count) + " open ports"@
    }
}

/// The lines shown for `found`. A single-target request gets one line that
/// says whether its port is among the found ones. Every other request gets
/// one line per found port in discovery order, an empty line and the summary.
pub open spec fn report_lines(request: ScanRequest, found: Seq<u16>) -> Seq<Seq<char>> {
    if request.flag == Flag::Target {
        if found.contains(request.port_from) {
            seq![open_line(request.port_from)]
        } else {
            seq![closed_line(request.port_from)]
        }
    } else {
        Seq::new(found.len(), |i: int| open_line(found[i])).push(Seq::empty()).push(
            summary_line(found.len()),
        )
    }
}

/// The texts of a list of strings.
pub open spec fn texts(lines: Seq<String>) -> Seq<Seq<char>> {
    Seq::new(lines.len(), |i: int| lines[i]@)
}

/// Writes the line for an open port.
pub fn render_open(port: u16) -> (line: String)
    ensures
        line@ == open_line(port),
{
    let number: String = decimal(port as u64);
    String::from_str("Port ").concat(number.as_str()).concat(" is open")
}

/// Writes the line for a single target that is not open.
pub fn render_closed(port: u16) -> (line: String)
    ensures
        line@ == closed_line(port),
{
    let number: String = decimal(port as u64);
    String::from_str("Port ").concat(number.as_str()).concat(" is NOT open")
}

/// Writes the closing line of a listing.
pub fn render_summary(count: usize) -> (line: String)
    ensures
        line@ == summary_line(count as nat),
{
    if count == 0 {
        String::from_str("NO MATCHES")
    } else {
        let number: String = decimal(count as u64);
        String::from_str("Found ").concat(number.as_str()).concat(" open ports")
    }
}

/// Writes the report of a finished scan, line by line.
pub fn render(request: &ScanRequest, outcome: &ScanOutcome) -> (lines: Vec<String>)
    ensures
        lines@.len() == report_lines(*request, outcome@).len(),
        texts(lines@) == report_lines(*request, outcome@),
{
    let mut lines: Vec<String> = Vec::new();
    match request.flag {
        Flag::Target => {
            if outcome.contains(request.port_from) {
                lines.push(render_open(request.port_from));
            } else {
                lines.push(render_closed(request.port_from));
            }
            proof {
                assert(texts(lines@) =~= report_lines(*request, outcome@));
            }
        },
        _ => {
            let ports: &Vec<u16> = outcome.ports();
            let mut i: usize = 0;
            while i < ports.len()
                invariant
                    ports@ == outcome@,
                    i <= ports@.len(),
                    lines@.len() == i,
                    forall|j: int| 0 <= j < i ==> (#[trigger] lines@[j])@ == open_line(ports@[j]),
                decreases ports@.len() - i,
            {
                lines.push(render_open(ports[i]));
                i += 1;
            }
            lines.push(String::new());
            lines.push(render_summary(ports.len()));
            proof {
                assert(texts(lines@) =~= report_lines(*request, outcome@));
            }
        },
    }
    lines
}

} // verus!
