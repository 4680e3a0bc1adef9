use port_sniffer::arguments::{has_flag, parse_arguments, ArgumentError};
use port_sniffer::request::{Address, Flag, ScanRequest};

const HOST: Address = Address::V4(0x7f00_0001);

fn words(list: &[&str]) -> Vec<String> {
    list.iter().map(|w| w.to_string()).collect()
}

#[test]
fn no_arguments() {
    assert_eq!(parse_arguments(&words(&[]), None, None), Err(ArgumentError::NoArguments));
    assert_eq!(parse_arguments(&words(&["sniff"]), None, None), Err(ArgumentError::NoArguments));
}

#[test]
fn bare_address_is_a_simple_sweep() {
    let r = parse_arguments(&words(&["sniff", "127.0.0.1"]), Some(HOST), None).unwrap();
    assert_eq!(r, ScanRequest::simple(HOST));
    assert_eq!(r.flag, Flag::Simple);
    assert_eq!((r.port_from, r.port_to, r.worker_count), (1, 65535, 100));
}

#[test]
fn help_is_asked_for() {
    assert_eq!(parse_arguments(&words(&["sniff", "-h"]), None, None), Err(ArgumentError::HelpRequested));
    assert_eq!(
        parse_arguments(&words(&["sniff", "--help"]), None, None),
        Err(ArgumentError::HelpRequested)
    );
    assert_eq!(
        parse_arguments(&words(&["sniff", "-h", "127.0.0.1", "80"]), None, Some(HOST)),
        Err(ArgumentError::HelpRequested)
    );
}

#[test]
fn unknown_first_word() {
    for w in ["-x", "scan", "", "-", "t", "a-", "- t"] {
        assert_eq!(
            parse_arguments(&words(&["sniff", w, "127.0.0.1", "1"]), None, Some(HOST)),
            Err(ArgumentError::InvalidSyntax),
            "{:?}",
            w
        );
    }
}

#[test]
fn address_is_missing_or_bad() {
    for flag in ["-t", "-r", "-a"] {
        assert_eq!(
            parse_arguments(&words(&["sniff", flag]), None, None),
            Err(ArgumentError::MissingAddress)
        );
        assert_eq!(
            parse_arguments(&words(&["sniff", flag, "localhost", "1", "2"]), None, None),
            Err(ArgumentError::BadAddress)
        );
    }
}

#[test]
fn target_mode() {
    let r = parse_arguments(&words(&["sniff", "-t", "127.0.0.1", "80"]), None, Some(HOST)).unwrap();
    assert_eq!(
        r,
        ScanRequest { flag: Flag::Target, address: HOST, port_from: 80, port_to: 80, worker_count: 1 }
    );
    assert_eq!(
        parse_arguments(&words(&["sniff", "-t", "127.0.0.1"]), None, Some(HOST)),
        Err(ArgumentError::MissingPortFrom)
    );
    assert_eq!(
        parse_arguments(&words(&["sniff", "-t", "127.0.0.1", "http"]), None, Some(HOST)),
        Err(ArgumentError::BadPortFrom)
    );
    assert_eq!(
        parse_arguments(&words(&["sniff", "-t", "127.0.0.1", "65536"]), None, Some(HOST)),
        Err(ArgumentError::BadPortFrom)
    );
    assert_eq!(
        parse_arguments(&words(&["sniff", "-t", "127.0.0.1", "0"]), None, Some(HOST)),
        Err(ArgumentError::BadRange)
    );
}

#[test]
fn range_mode() {
    let r =
        parse_arguments(&words(&["sniff", "-r", "127.0.0.1", "20", "25"]), None, Some(HOST)).unwrap();
    assert_eq!(
        r,
        ScanRequest { flag: Flag::Range, address: HOST, port_from: 20, port_to: 25, worker_count: 5 }
    );
    let one =
        parse_arguments(&words(&["sniff", "-r", "127.0.0.1", "25", "25"]), None, Some(HOST)).unwrap();
    assert_eq!((one.port_from, one.port_to, one.worker_count), (25, 25, 1));
    assert_eq!(
        parse_arguments(&words(&["sniff", "-r", "127.0.0.1"]), None, Some(HOST)),
        Err(ArgumentError::MissingPortFrom)
    );
    assert_eq!(
        parse_arguments(&words(&["sniff", "-r", "127.0.0.1", "x", "25"]), None, Some(HOST)),
        Err(ArgumentError::BadPortFrom)
    );
    assert_eq!(
        parse_arguments(&words(&["sniff", "-r", "127.0.0.1", "20"]), None, Some(HOST)),
        Err(ArgumentError::MissingPortTo)
    );
    assert_eq!(
        parse_arguments(&words(&["sniff", "-r", "127.0.0.1", "20", "y"]), None, Some(HOST)),
        Err(ArgumentError::BadPortTo)
    );
    assert_eq!(
        parse_arguments(&words(&["sniff", "-r", "127.0.0.1", "25", "20"]), None, Some(HOST)),
        Err(ArgumentError::BadRange)
    );
    assert_eq!(
        parse_arguments(&words(&["sniff", "-r", "127.0.0.1", "0", "20"]), None, Some(HOST)),
        Err(ArgumentError::BadRange)
    );
}

#[test]
fn full_sweep_mode() {
    let r = parse_arguments(&words(&["sniff", "-a", "::1", "50"]), None, Some(Address::V6(1))).unwrap();
    assert_eq!(
        r,
        ScanRequest {
            flag: Flag::All,
            address: Address::V6(1),
            port_from: 1,
            port_to: 65535,
            worker_count: 50
        }
    );
    let zero = parse_arguments(&words(&["sniff", "-a", "::1", "0"]), None, Some(Address::V6(1))).unwrap();
    assert_eq!(zero.worker_count, 1);
    assert_eq!(
        parse_arguments(&words(&["sniff", "-a", "::1"]), None, Some(Address::V6(1))),
        Err(ArgumentError::MissingThreads)
    );
    assert_eq!(
        parse_arguments(&words(&["sniff", "-a", "::1", "many"]), None, Some(Address::V6(1))),
        Err(ArgumentError::BadThreads)
    );
}

#[test]
fn sweep_flag_wins_over_target_and_range() {
    let r = parse_arguments(&words(&["sniff", "-t-a", "127.0.0.1", "8"]), None, Some(HOST)).unwrap();
    assert_eq!(r.flag, Flag::All);
    assert_eq!(r.worker_count, 8);
    let t = parse_arguments(&words(&["sniff", "-r-t", "127.0.0.1", "8"]), None, Some(HOST)).unwrap();
    assert_eq!(t.flag, Flag::Target);
}

#[test]
fn has_flag_finds_dash_and_letter() {
    assert!(has_flag("-h", 'h'));
    assert!(has_flag("--help", 'h'));
    assert!(has_flag("x-ty", 't'));
    assert!(has_flag("é-t", 't'));
    assert!(!has_flag("", 'h'));
    assert!(!has_flag("-", 'h'));
    assert!(!has_flag("h", 'h'));
    assert!(!has_flag("h-", 'h'));
    assert!(!has_flag("-xh", 'h'));
    assert!(!has_flag("-t", 'r'));
    for (word, letter) in [("-a", 'a'), ("ab-", 'a'), ("--a", 'a'), ("a-b-c", 'c'), ("-A", 'a')] {
        let pattern = format!("-{}", letter);
        assert_eq!(has_flag(word, letter), word.contains(&pattern), "{:?}", word);
    }
}

#[test]
fn messages() {
    assert_eq!(ArgumentError::NoArguments.message(), "no arguments have been entered");
    assert_eq!(ArgumentError::HelpRequested.message(), "");
    assert_eq!(ArgumentError::MissingAddress.message(), "you must enter a IPADDRESS");
    assert_eq!(ArgumentError::BadAddress.message(), "IPADDRESS must be IPv4 or IPv6");
    assert_eq!(ArgumentError::MissingThreads.message(), "you must enter a THREADS_COUNT");
    assert_eq!(ArgumentError::BadThreads.message(), "THREADS_COUNT must be a number");
    assert_eq!(ArgumentError::MissingPortFrom.message(), "you must enter PORT_FROM");
    assert_eq!(ArgumentError::BadPortFrom.message(), "PORT_FROM must be a number");
    assert_eq!(ArgumentError::MissingPortTo.message(), "you must enter PORT_TO");
    assert_eq!(ArgumentError::BadPortTo.message(), "PORT_FROM must be a number");
    assert_eq!(
        ArgumentError::BadRange.message(),
        "ports start at 1 and PORT_FROM must not exceed PORT_TO"
    );
    assert_eq!(ArgumentError::InvalidSyntax.message(), "of invalid syntax");
}
