use subnet_scan::address::HostAddress;
use subnet_scan::report::{report, trim_end, Report};
use subnet_scan::target::ScanOutcome;

fn host() -> HostAddress {
    HostAddress::v4(0x7f00_0001)
}

#[test]
fn trim_end_removes_trailing_white_space_only() {
    assert_eq!(trim_end("hello \t\r\n"), "hello");
    assert_eq!(trim_end("  lead and  inner \n"), "  lead and  inner");
    assert_eq!(trim_end("none"), "none");
    assert_eq!(trim_end(""), "");
    assert_eq!(trim_end(" \r\n\t "), "");
}

#[test]
fn trim_end_knows_unicode_white_space() {
    assert_eq!(trim_end("x\u{2003}\u{a0}\u{3000}\u{85}"), "x");
    assert_eq!(trim_end("\u{2603} \u{1f600}\u{2028}"), "\u{2603} \u{1f600}");
    // a zero-width space is no white space
    assert_eq!(trim_end("x\u{200b}"), "x\u{200b}");
}

#[test]
fn trim_end_agrees_with_the_standard_library() {
    for text in ["a b ", "\n", "a\u{1680}", "tab\t", "\u{feff}", "q\u{0}", "\u{b}\u{c}", "é "] {
        assert_eq!(trim_end(text), text.trim_end(), "{:?}", text);
    }
}

#[test]
fn closed_port_is_not_reported() {
    assert_eq!(report(host(), &ScanOutcome::Closed), None);
}

#[test]
fn open_port_is_reported_by_address_alone() {
    assert_eq!(report(host(), &ScanOutcome::Open), Some(Report { host: host(), banner: None }));
}

#[test]
fn empty_banner_is_reported_by_address_alone() {
    let outcome = ScanOutcome::OpenWithBanner(String::new());
    assert_eq!(report(host(), &outcome), Some(Report { host: host(), banner: None }));
}

#[test]
fn banner_is_reported_without_its_trailing_white_space() {
    let outcome = ScanOutcome::OpenWithBanner("SSH-2.0-OpenSSH_9.6 \r\n".to_string());
    assert_eq!(
        report(host(), &outcome),
        Some(Report { host: host(), banner: Some("SSH-2.0-OpenSSH_9.6".to_string()) })
    );
}

#[test]
fn banner_of_white_space_alone_is_reported_as_empty_text() {
    let outcome = ScanOutcome::OpenWithBanner("\r\n".to_string());
    assert_eq!(
        report(host(), &outcome),
        Some(Report { host: host(), banner: Some(String::new()) })
    );
}
