use opensmtpd_filter_from::args::{add_list_line, ListKind};
use opensmtpd_filter_from::blacklist::Blacklist;
use opensmtpd_filter_from::filter::Filter;

fn run_filter(blacklist: Blacklist, input: &[u8]) -> Vec<u8> {
    let mut filter = Filter::new(blacklist);
    let mut out = Vec::new();
    for line in input.split(|b| *b == b'\n') {
        if line.is_empty() {
            continue;
        }
        out.extend(filter.handle_line(line));
    }
    out
}

fn list_of(kind: ListKind, file: &str) -> Blacklist {
    let mut b = Blacklist::new();
    for line in file.lines() {
        add_list_line(&mut b, kind, line.as_bytes());
    }
    b
}

#[test]
fn config_ready_registers_events() {
    let output = run_filter(Blacklist::new(), b"config|ready\n");
    let stdout = String::from_utf8_lossy(&output);
    assert!(stdout.contains("register|report|smtp-in|tx-begin\n"));
    assert!(stdout.contains("register|filter|smtp-in|data-line\n"));
    assert!(stdout.contains("register|filter|smtp-in|commit\n"));
    assert!(stdout.contains("register|report|smtp-in|link-disconnect\n"));
    assert!(stdout.contains("register|ready\n"));
}

#[test]
fn mail_without_blacklist_is_allowed() {
    let input = [
        "config|ready\n",
        "report|0.7|1234567890.000000|smtp-in|tx-begin|session1\n",
        "filter|0.7|1234567890.000000|smtp-in|data-line|session1|token1|From: sender@example.com\n",
        "filter|0.7|1234567890.000000|smtp-in|data-line|session1|token1|.\n",
        "filter|0.7|1234567890.000000|smtp-in|commit|session1|token1\n",
    ]
    .concat();
    let output = run_filter(Blacklist::new(), input.as_bytes());
    let stdout = String::from_utf8_lossy(&output);
    assert!(stdout.contains("filter-result|session1|token1|proceed"));
}

#[test]
fn blacklisted_address_is_denied() {
    let blacklist = list_of(ListKind::Addresses, "blocked@example.com\n");
    let input = [
        "config|ready\n",
        "report|0.7|1234567890.000000|smtp-in|tx-begin|session1\n",
        "filter|0.7|1234567890.000000|smtp-in|data-line|session1|token1|From: blocked@example.com\n",
        "filter|0.7|1234567890.000000|smtp-in|data-line|session1|token1|.\n",
        "filter|0.7|1234567890.000000|smtp-in|commit|session1|token1\n",
    ]
    .concat();
    let output = run_filter(blacklist, input.as_bytes());
    let stdout = String::from_utf8_lossy(&output);
    assert!(
        stdout.contains("filter-result|session1|token1|reject|550 Sender or domain is blacklisted")
    );
}

#[test]
fn blacklisted_domain_is_denied() {
    let blacklist = list_of(ListKind::Domains, "example.com\n");
    let input = [
        "config|ready\n",
        "report|0.7|1234567890.000000|smtp-in|tx-begin|session1\n",
        "filter|0.7|1234567890.000000|smtp-in|data-line|session1|token1|From: sender@example.com\n",
        "filter|0.7|1234567890.000000|smtp-in|data-line|session1|token1|.\n",
        "filter|0.7|1234567890.000000|smtp-in|commit|session1|token1\n",
    ]
    .concat();
    let output = run_filter(blacklist, input.as_bytes());
    let stdout = String::from_utf8_lossy(&output);
    assert!(
        stdout.contains("filter-result|session1|token1|reject|550 Sender or domain is blacklisted")
    );
}
