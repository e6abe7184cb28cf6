use subnet_scan::coordinator::{ScanConfig, DEFAULT_CONCURRENCY, DEFAULT_TIMEOUT_MS};
use subnet_scan::error::ScanError;
use subnet_scan::options::{
    parse_args, parse_decimal, read_number_option, Flag, Invocation, NumberOption,
};

fn args(list: &[&str]) -> Vec<String> {
    list.iter().map(|s| s.to_string()).collect()
}

fn scan(subnet: &str, config: ScanConfig) -> Result<Invocation, ScanError> {
    Ok(Invocation::Scan { subnet: subnet.to_string(), config })
}

#[test]
fn parse_decimal_reads_plain_numbers() {
    assert_eq!(parse_decimal("0"), Some(0));
    assert_eq!(parse_decimal("9999"), Some(9999));
    assert_eq!(parse_decimal("007"), Some(7));
    assert_eq!(parse_decimal("+5"), Some(5));
    assert_eq!(parse_decimal("18446744073709551615"), Some(u64::MAX));
}

#[test]
fn parse_decimal_rejects_everything_else() {
    for text in [
        "",
        "+",
        "-1",
        "++1",
        "1+",
        " 5",
        "5 ",
        "1_000",
        "0x10",
        "12a",
        "1.5",
        "18446744073709551616",
        "99999999999999999999999999",
        "\u{663}",
        "\u{ff11}",
    ] {
        assert_eq!(parse_decimal(text), None, "{:?}", text);
    }
}

#[test]
fn parse_decimal_agrees_with_the_standard_library() {
    for text in ["0", "+0", "65535", "65536", "-0", "", "+", "00000000000000000000001", "1e3", "٣"] {
        assert_eq!(parse_decimal(text), text.parse::<u64>().ok(), "{:?}", text);
    }
}

#[test]
fn flags_have_two_spellings_each() {
    assert!(Flag::Threads.is_spelled("-t"));
    assert!(Flag::Threads.is_spelled("--threads"));
    assert!(!Flag::Threads.is_spelled("-T"));
    assert!(!Flag::Threads.is_spelled("--thread"));
    assert!(Flag::Timeout.is_spelled("-T"));
    assert!(Flag::Timeout.is_spelled("--timeout"));
    assert!(!Flag::Timeout.is_spelled("-t"));
    assert!(Flag::NoBanner.is_spelled("-n"));
    assert!(Flag::NoBanner.is_spelled("--nobanner"));
    assert!(!Flag::NoBanner.is_spelled("-nobanner"));
    assert!(!Flag::NoBanner.is_spelled(""));
}

#[test]
fn too_few_arguments_ask_for_usage() {
    assert_eq!(parse_args(&args(&[])), Ok(Invocation::Usage));
    assert_eq!(parse_args(&args(&["scan"])), Ok(Invocation::Usage));
    assert_eq!(parse_args(&args(&["scan", "10.0.0.0/24"])), Ok(Invocation::Usage));
}

#[test]
fn defaults_are_200_tasks_one_second_and_banners() {
    assert_eq!(DEFAULT_CONCURRENCY, 200);
    assert_eq!(DEFAULT_TIMEOUT_MS, 1000);
    let expected = ScanConfig { port: 9999, concurrency: 200, timeout_ms: 1000, banner_enabled: true };
    assert_eq!(ScanConfig::new(9999), expected);
    assert_eq!(parse_args(&args(&["scan", "10.0.0.0/30", "9999"])), scan("10.0.0.0/30", expected));
}

#[test]
fn options_override_the_defaults() {
    let expected = ScanConfig { port: 22, concurrency: 8, timeout_ms: 250, banner_enabled: false };
    assert_eq!(
        parse_args(&args(&["scan", "fd00::/120", "22", "-t", "8", "-T", "250", "-n"])),
        scan("fd00::/120", expected)
    );
    assert_eq!(
        parse_args(&args(&[
            "scan",
            "fd00::/120",
            "22",
            "--nobanner",
            "--timeout",
            "250",
            "--threads",
            "8"
        ])),
        scan("fd00::/120", expected)
    );
}

#[test]
fn first_occurrence_of_an_option_counts() {
    let got = parse_args(&args(&["scan", "10.0.0.0/24", "80", "-t", "3", "--threads", "9"]));
    let expected = ScanConfig { port: 80, concurrency: 3, timeout_ms: 1000, banner_enabled: true };
    assert_eq!(got, scan("10.0.0.0/24", expected));
}

#[test]
fn subnet_is_handed_on_as_written() {
    let got = parse_args(&args(&["scan", "not a subnet", "80"]));
    assert_eq!(got, scan("not a subnet", ScanConfig::new(80)));
}

#[test]
fn port_must_be_a_number_of_16_bits() {
    for port in ["http", "", "-1", "65536", "80/tcp"] {
        assert_eq!(
            parse_args(&args(&["scan", "10.0.0.0/24", port])),
            Err(ScanError::InvalidArgument),
            "{:?}",
            port
        );
    }
    assert_eq!(
        parse_args(&args(&["scan", "10.0.0.0/24", "65535"])),
        scan("10.0.0.0/24", ScanConfig::new(65535))
    );
    assert_eq!(
        parse_args(&args(&["scan", "10.0.0.0/24", "0"])),
        scan("10.0.0.0/24", ScanConfig::new(0))
    );
}

#[test]
fn non_numeric_option_values_are_invalid_arguments() {
    for list in [
        &["scan", "10.0.0.0/24", "80", "-t", "many"][..],
        &["scan", "10.0.0.0/24", "80", "--threads", "-4"][..],
        &["scan", "10.0.0.0/24", "80", "-T", "1s"][..],
        &["scan", "10.0.0.0/24", "80", "--timeout", ""][..],
        &["scan", "10.0.0.0/24", "80", "-t"][..],
        &["scan", "10.0.0.0/24", "80", "-n", "-T"][..],
        &["scan", "10.0.0.0/24", "80", "-t", "-n"][..],
    ] {
        assert_eq!(parse_args(&args(list)), Err(ScanError::InvalidArgument), "{:?}", list);
    }
}

#[test]
fn numeric_options_are_read_one_by_one() {
    let list = args(&["scan", "10.0.0.0/24", "80", "-T", "5", "-t", "x"]);
    assert_eq!(read_number_option(&list, Flag::Timeout), NumberOption::Given(5));
    assert_eq!(read_number_option(&list, Flag::Threads), NumberOption::Invalid);
    let list = args(&["scan", "-t", "7"]);
    // the first two arguments are never options
    assert_eq!(read_number_option(&list, Flag::Threads), NumberOption::Absent);
    let list = args(&["scan", "a", "b", "-t"]);
    assert_eq!(read_number_option(&list, Flag::Threads), NumberOption::Invalid);
    assert_eq!(read_number_option(&list, Flag::Timeout), NumberOption::Absent);
}

#[test]
fn unknown_arguments_are_passed_over() {
    let got = parse_args(&args(&["scan", "10.0.0.0/24", "80", "--verbose", "-n"]));
    let expected = ScanConfig { port: 80, concurrency: 200, timeout_ms: 1000, banner_enabled: false };
    assert_eq!(got, scan("10.0.0.0/24", expected));
}

#[test]
fn nobanner_must_be_spelled_out() {
    // an argument that merely contains the flag does not switch banners off
    let got = parse_args(&args(&["scan-net", "10.0.0.0/24", "80", "x-n"]));
    assert_eq!(got, scan("10.0.0.0/24", ScanConfig::new(80)));
}
