use opensmtpd_filter_from::args::{add_list_line, list_kind, ListKind};
use opensmtpd_filter_from::blacklist::Blacklist;
use opensmtpd_filter_from::codec::{decode_line, split_fields, Event};
use opensmtpd_filter_from::extract::{extract_sender, header_address, is_from_line, trim_range};
use opensmtpd_filter_from::filter::Filter;
use opensmtpd_filter_from::session::SessionTable;
use opensmtpd_filter_from::util::join_write_bytes;

const REJECT: &str = "reject|550 Sender or domain is blacklisted\n";

fn feed(filter: &mut Filter, lines: &[&str]) -> String {
    let mut out = Vec::new();
    for line in lines {
        out.extend(filter.handle_line(line.as_bytes()));
    }
    String::from_utf8(out).unwrap()
}

fn transaction(session: &str, token: &str, from: &str) -> Vec<String> {
    vec![
        format!("report|0.7|1.0|smtp-in|tx-begin|{}", session),
        format!("filter|0.7|1.0|smtp-in|data-line|{}|{}|{}", session, token, from),
        format!("filter|0.7|1.0|smtp-in|data-line|{}|{}|.", session, token),
        format!("filter|0.7|1.0|smtp-in|commit|{}|{}", session, token),
    ]
}

fn verdict_for(blacklist: Blacklist, from: &str) -> String {
    let mut f = Filter::new(blacklist);
    let lines = transaction("s", "t", from);
    let refs: Vec<&str> = lines.iter().map(|l| l.as_str()).collect();
    feed(&mut f, &refs)
}

fn addresses(list: &[&str]) -> Blacklist {
    let mut b = Blacklist::new();
    for a in list {
        add_list_line(&mut b, ListKind::Addresses, a.as_bytes());
    }
    b
}

fn domains(list: &[&str]) -> Blacklist {
    let mut b = Blacklist::new();
    for d in list {
        add_list_line(&mut b, ListKind::Domains, d.as_bytes());
    }
    b
}

#[test]
fn handshake_is_exact_and_only_once() {
    let mut f = Filter::new(Blacklist::new());
    let out = feed(&mut f, &["config|ready"]);
    assert_eq!(
        out,
        "register|report|smtp-in|tx-begin\nregister|filter|smtp-in|data-line\n\
         register|filter|smtp-in|commit\nregister|report|smtp-in|link-disconnect\nregister|ready\n"
    );
    assert_eq!(feed(&mut f, &["config|ready"]), "");
}

#[test]
fn listed_address_rejects_and_other_proceeds() {
    let out = verdict_for(addresses(&["a@x.org", "b@y.org"]), "From: b@y.org");
    assert_eq!(out, format!("filter-result|s|t|{}", REJECT));
    let out = verdict_for(addresses(&["a@x.org"]), "From: c@x.org");
    assert_eq!(out, "filter-result|s|t|proceed\n");
}

#[test]
fn exact_domain_does_not_cover_subdomains() {
    assert!(verdict_for(domains(&["example.com"]), "From: x@example.com").ends_with(REJECT));
    assert_eq!(
        verdict_for(domains(&["example.com"]), "From: x@sub.example.com"),
        "filter-result|s|t|proceed\n"
    );
    assert_eq!(
        verdict_for(domains(&["example.com"]), "From: x@badexample.com"),
        "filter-result|s|t|proceed\n"
    );
}

#[test]
fn suffix_domain_covers_deeper_levels() {
    let b = || domains(&[".sub.example.com"]);
    assert!(verdict_for(b(), "From: a@deep.sub.example.com").ends_with(REJECT));
    assert!(verdict_for(b(), "From: a@x.deep.sub.example.com").ends_with(REJECT));
    assert_eq!(verdict_for(b(), "From: a@example.com"), "filter-result|s|t|proceed\n");
    // The pattern is a literal suffix: the bare domain lacks its leading dot.
    assert_eq!(verdict_for(b(), "From: a@sub.example.com"), "filter-result|s|t|proceed\n");
}

#[test]
fn interleaved_sessions_stay_apart() {
    let mut f = Filter::new(addresses(&["bad@evil.com"]));
    let out = feed(
        &mut f,
        &[
            "config|ready",
            "report|0.7|1.0|smtp-in|tx-begin|A",
            "report|0.7|1.0|smtp-in|tx-begin|B",
            "filter|0.7|1.0|smtp-in|data-line|A|ta|From: bad@evil.com",
            "filter|0.7|1.0|smtp-in|data-line|B|tb|Subject: hi",
            "filter|0.7|1.0|smtp-in|data-line|B|tb|From: good@fine.com",
            "filter|0.7|1.0|smtp-in|data-line|A|ta|.",
            "filter|0.7|1.0|smtp-in|data-line|B|tb|.",
            "filter|0.7|1.0|smtp-in|commit|B|tb",
            "filter|0.7|1.0|smtp-in|commit|A|ta",
        ],
    );
    assert!(out.ends_with(&format!(
        "filter-result|B|tb|proceed\nfilter-result|A|ta|{}",
        REJECT
    )));
}

#[test]
fn disconnect_then_begin_starts_fresh() {
    let mut f = Filter::new(addresses(&["bad@evil.com"]));
    feed(
        &mut f,
        &[
            "report|0.7|1.0|smtp-in|tx-begin|S",
            "filter|0.7|1.0|smtp-in|data-line|S|t1|From: bad@evil.com",
            "report|0.7|1.0|smtp-in|link-disconnect|S",
        ],
    );
    assert_eq!(feed(&mut f, &["filter|0.7|1.0|smtp-in|commit|S|t1"]), "");
    let out = feed(
        &mut f,
        &["report|0.7|1.0|smtp-in|tx-begin|S", "filter|0.7|1.0|smtp-in|commit|S|t2"],
    );
    assert_eq!(out, "filter-result|S|t2|proceed\n");
}

#[test]
fn second_transaction_resets_sender() {
    let mut f = Filter::new(addresses(&["bad@evil.com"]));
    let first = transaction("S", "t1", "From: bad@evil.com");
    let second = transaction("S", "t2", "From: ok@fine.com");
    let all: Vec<&str> = first.iter().chain(second.iter()).map(|l| l.as_str()).collect();
    let out = feed(&mut f, &all);
    assert_eq!(out, format!("filter-result|S|t1|{}filter-result|S|t2|proceed\n", REJECT));
}

#[test]
fn commit_for_unknown_session_is_ignored() {
    let mut f = Filter::new(Blacklist::new());
    assert_eq!(feed(&mut f, &["filter|0.7|1.0|smtp-in|commit|nope|t"]), "");
    assert_eq!(feed(&mut f, &["filter|0.7|1.0|smtp-in|data-line|nope|t|x"]), "");
}

#[test]
fn malformed_lines_are_ignored() {
    let mut f = Filter::new(Blacklist::new());
    let out = feed(
        &mut f,
        &[
            "",
            "garbage",
            "config|steady",
            "report|0.7|1.0|smtp-in|tx-begin",
            "report|0.7|1.0|smtp-in|link-up|S",
            "filter|0.7|1.0|smtp-in|commit|S",
            "filter|0.7|1.0|smtp-in|data-line|S|t",
        ],
    );
    assert_eq!(out, "");
}

#[test]
fn no_from_header_proceeds() {
    let out = verdict_for(addresses(&["bad@evil.com"]), "Subject: bad@evil.com");
    assert_eq!(out, "filter-result|s|t|proceed\n");
}

#[test]
fn angle_bracket_address_is_used() {
    let out = verdict_for(addresses(&["bad@evil.com"]), "from: \"Bad Guy\" < bad@evil.com >");
    assert!(out.ends_with(REJECT));
}

#[test]
fn only_first_from_header_counts() {
    let mut f = Filter::new(addresses(&["bad@evil.com"]));
    let out = feed(
        &mut f,
        &[
            "report|0.7|1.0|smtp-in|tx-begin|S",
            "filter|0.7|1.0|smtp-in|data-line|S|t|From: ok@fine.com",
            "filter|0.7|1.0|smtp-in|data-line|S|t|From: bad@evil.com",
            "filter|0.7|1.0|smtp-in|commit|S|t",
        ],
    );
    assert_eq!(out, "filter-result|S|t|proceed\n");
}

#[test]
fn data_line_content_keeps_pipes() {
    match decode_line(b"filter|0.7|1.0|smtp-in|data-line|S|t|a|b|c") {
        Some(Event::DataLine { session, token, content }) => {
            assert_eq!(session, b"S".to_vec());
            assert_eq!(token, b"t".to_vec());
            assert_eq!(content, b"a|b|c".to_vec());
        }
        _ => panic!("not a data line"),
    }
    match decode_line(b"filter|0.7|1.0|smtp-in|data-line|S|t|") {
        Some(Event::DataLine { content, .. }) => assert!(content.is_empty()),
        _ => panic!("not a data line"),
    }
}

#[test]
fn decode_known_shapes() {
    assert!(matches!(decode_line(b"config|ready"), Some(Event::ConfigReady)));
    assert!(matches!(
        decode_line(b"report|0.7|1.0|smtp-in|tx-begin|S"),
        Some(Event::TxBegin { .. })
    ));
    assert!(matches!(
        decode_line(b"report|0.7|1.0|smtp-in|link-disconnect|S"),
        Some(Event::LinkDisconnect { .. })
    ));
    assert!(matches!(
        decode_line(b"filter|0.7|1.0|smtp-in|commit|S|t"),
        Some(Event::Commit { .. })
    ));
    assert!(decode_line(b"report|0.7|1.0|smtp-in|commit|S|t").is_none());
}

#[test]
fn split_stops_at_eight_fields() {
    let f = split_fields(b"a|b||c|d|e|f|g|h|i");
    assert_eq!(f.len(), 8);
    assert_eq!(f[2], b"".to_vec());
    assert_eq!(f[7], b"g|h|i".to_vec());
    assert_eq!(split_fields(b""), vec![Vec::<u8>::new()]);
}

#[test]
fn header_address_forms() {
    assert_eq!(header_address(b" <a@b.c>"), Some(b"a@b.c".to_vec()));
    assert_eq!(header_address(b" Name <  a@b.c\t>"), Some(b"a@b.c".to_vec()));
    assert_eq!(header_address(b" Name (\"a@b.c\"), x"), Some(b"a@b.c".to_vec()));
    assert_eq!(header_address(b" first second@x.y."), Some(b"second@x.y".to_vec()));
    assert_eq!(header_address(b" <a@b.c"), Some(b"a@b.c".to_vec()));
    assert_eq!(header_address(b" nobody here"), None);
    assert_eq!(header_address(b""), None);
}

#[test]
fn from_line_is_case_insensitive() {
    assert!(is_from_line(b"From: a@b"));
    assert!(is_from_line(b"FROM:a@b"));
    assert!(is_from_line(b"fRoM:"));
    assert!(!is_from_line(b"From a@b"));
    assert!(!is_from_line(b"Fro:"));
    assert!(!is_from_line(b"X-From: a@b"));
}

#[test]
fn extract_sender_takes_first_header() {
    let lines = vec![
        b"Subject: x@y.z".to_vec(),
        b"From: Me <me@here.org>".to_vec(),
        b"From: you@there.org".to_vec(),
    ];
    assert_eq!(extract_sender(&lines), Some(b"me@here.org".to_vec()));
    assert_eq!(extract_sender(&vec![]), None);
}

#[test]
fn trim_removes_class_at_both_ends() {
    assert_eq!(trim_range(b"  a b  ", 0, 7, true), b"a b".to_vec());
    assert_eq!(trim_range(b"\"(x@y)\";", 0, 8, false), b"x@y".to_vec());
    assert_eq!(trim_range(b"   ", 0, 3, true), Vec::<u8>::new());
    assert_eq!(trim_range(b"xx  a  yy", 2, 7, true), b"a".to_vec());
}

#[test]
fn join_write_bytes_joins_with_separator() {
    let mut out = b">".to_vec();
    join_write_bytes(&mut out, b", ", &vec![b"a".to_vec(), b"".to_vec(), b"bc".to_vec()]);
    assert_eq!(out, b">a, , bc".to_vec());
    let mut empty = Vec::new();
    join_write_bytes(&mut empty, b"|", &vec![]);
    assert!(empty.is_empty());
}

#[test]
fn blacklist_loading_rules() {
    let mut b = Blacklist::new();
    add_list_line(&mut b, ListKind::Addresses, b"");
    add_list_line(&mut b, ListKind::Domains, b"");
    assert!(!b.matches(b""));
    assert!(!b.matches(b"x@"));
    add_list_line(&mut b, ListKind::Addresses, b"Dup@x.org");
    add_list_line(&mut b, ListKind::Addresses, b"Dup@x.org");
    assert!(b.matches(b"Dup@x.org"));
    assert!(!b.matches(b"dup@x.org"));
    assert!(!b.matches(b"Dup@x.orgg"));
    assert!(Blacklist::new().matches(b"a@b") == false);
}

#[test]
fn list_keywords() {
    assert_eq!(list_kind(b"addr-file"), Some(ListKind::Addresses));
    assert_eq!(list_kind(b"domain-file"), Some(ListKind::Domains));
    assert_eq!(list_kind(b"addr"), None);
    assert_eq!(list_kind(b""), None);
}

#[test]
fn session_table_end_is_idempotent() {
    let mut t = SessionTable::new();
    t.end(b"x");
    t.begin(b"x");
    assert!(!t.append_line(b"x", b"t", b"From: a@b"));
    assert!(t.append_line(b"x", b"t", b"."));
    assert_eq!(t.decide(b"x", &addresses(&["a@b"])), Some(true));
    t.end(b"x");
    t.end(b"x");
    assert_eq!(t.decide(b"x", &Blacklist::new()), None);
}
