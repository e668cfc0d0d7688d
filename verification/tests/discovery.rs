use bichon_autoconfig::cache::{CacheLookup, CachedMailSettings, EXPIRE_TIME_MS};
use bichon_autoconfig::fetch::{
    accept_announced_url, candidate_urls, check_response, domain_from_addr,
    domain_of_checked_addr, invalid_response, select_first_ok, urls_from_txt_records,
    validate_email, AutoconfigError, ErrorKind,
};

fn s(text: &str) -> String {
    text.to_string()
}

#[test]
fn email_shapes() {
    assert!(validate_email("user@example.com"));
    assert!(validate_email("first.last+tag@mail.example.org"));
    assert!(!validate_email("no-at-sign.example.com"));
    assert!(!validate_email("User@Example.com"));
    assert!(!validate_email("user@localhost"));
    assert!(!validate_email(""));
}

#[test]
fn domain_of_an_address() {
    assert_eq!(domain_from_addr("user@example.com").unwrap(), "example.com");
    assert_eq!(domain_from_addr("a_b+c@sub.example.co.uk").unwrap(), "sub.example.co.uk");
    // The pattern is anchored at the start only: text after a second `@` is cut off.
    assert_eq!(domain_from_addr("user@example.com@other").unwrap(), "example.com");
}

#[test]
fn invalid_address_is_bad_input() {
    let e = domain_from_addr("not an address").unwrap_err();
    assert!(matches!(e.kind(), ErrorKind::BadInput));
    assert_eq!(e.message(), "Given email address is invalid");
    assert_eq!(e.to_string(), "Given email address is invalid");
}

#[test]
fn candidate_urls_are_sorted_and_unique() {
    let urls = candidate_urls("example.com", vec![]);
    assert_eq!(
        urls,
        vec![
            s("http://autoconfig.example.com/mail/config-v1.1.xml"),
            s("http://example.com/.well-known/autoconfig/mail/config-v1.1.xml"),
            s("https://autoconfig.thunderbird.net/v1.1/example.com"),
        ]
    );
    let with_txt = candidate_urls(
        "example.com",
        vec![
            s("https://config.example.com/mail.xml"),
            s("http://autoconfig.example.com/mail/config-v1.1.xml"),
            s("https://config.example.com/mail.xml"),
        ],
    );
    assert_eq!(with_txt.len(), 4);
    let mut sorted = with_txt.clone();
    sorted.sort();
    sorted.dedup();
    assert_eq!(with_txt, sorted);
    assert!(with_txt.contains(&s("https://config.example.com/mail.xml")));
}

#[test]
fn txt_records_announce_https_urls_only() {
    let records = vec![
        vec![b"mailconf=https://config.example.com/mail.xml".to_vec()],
        vec![b"mailconf=http://plain.example.com/mail.xml".to_vec()],
        vec![b"v=spf1 -all".to_vec()],
        vec![],
        vec![vec![0xff, 0xfe]],
        vec![b"mailconf=https://second.example.com/x".to_vec(), b"ignored".to_vec()],
        vec![b"mailconf=https://bad url".to_vec()],
    ];
    assert_eq!(
        urls_from_txt_records(&records),
        vec![s("https://config.example.com/mail.xml"), s("https://second.example.com/x")]
    );
}

#[test]
fn failed_response_carries_its_body() {
    assert!(check_response(true, b"<clientConfig/>").is_ok());
    let e = check_response(false, b"Not Found").unwrap_err();
    assert!(matches!(e.kind(), ErrorKind::InvalidResponse));
    assert_eq!(e.message(), "HTTP request failed: Not Found");
    let lossy = check_response(false, &[b'a', 0xff, b'b']).unwrap_err();
    assert_eq!(lossy.message(), "HTTP request failed: a\u{fffd}b");
}

fn err(message: &str) -> AutoconfigError {
    AutoconfigError::new(ErrorKind::InvalidResponse, s(message))
}

#[test]
fn first_success_wins() {
    let outcomes: Vec<Result<u32, AutoconfigError>> = vec![Err(err("a")), Ok(7), Ok(8)];
    assert_eq!(select_first_ok(outcomes, vec![]).unwrap(), 7);
}

#[test]
fn all_failures_give_not_found() {
    let outcomes: Vec<Result<u32, AutoconfigError>> = vec![Err(err("a")), Err(err("b"))];
    let e = select_first_ok(outcomes, vec![err("dns")]).unwrap_err();
    assert_eq!(e.message(), "Could not find a valid config");
    match e.kind() {
        ErrorKind::NotFound(all) => {
            let messages: Vec<&str> = all.iter().map(|x| x.message()).collect();
            assert_eq!(messages, vec!["dns", "b"]);
        }
        other => panic!("unexpected kind {:?}", other),
    }
}

#[test]
fn error_kinds_without_payload() {
    let e = AutoconfigError::new(ErrorKind::BuildHttpClient, s("Failed to create HTTP client"));
    assert!(matches!(e.kind(), ErrorKind::BuildHttpClient));
    assert_eq!(e.message(), "Failed to create HTTP client");
}

#[test]
fn cached_entry_fresh_until_thirty_days() {
    assert_eq!(EXPIRE_TIME_MS, 2_592_000_000);
    let entry = CachedMailSettings::add(s("example.com"), 42u32, 1_000);
    assert_eq!(entry.domain, "example.com");
    assert_eq!(entry.created_at, 1_000);
    assert!(!entry.is_expired(1_000 + EXPIRE_TIME_MS));
    assert!(entry.is_expired(1_001 + EXPIRE_TIME_MS));
    assert_eq!(
        CachedMailSettings::get(Some(entry.clone()), 1_000 + EXPIRE_TIME_MS),
        CacheLookup::Fresh(entry.clone())
    );
    assert_eq!(CachedMailSettings::get(Some(entry), 2_000 + EXPIRE_TIME_MS), CacheLookup::Expired);
    assert_eq!(CachedMailSettings::<u32>::get(None, 0), CacheLookup::Absent);
}

#[test]
fn checked_address_without_at_sign() {
    let e = domain_of_checked_addr(true, "nodomain").unwrap_err();
    assert!(matches!(e.kind(), ErrorKind::BadInput));
    assert_eq!(e.message(), "An email address must specify a domain after the '@' symbol");
    let e = domain_of_checked_addr(false, "user@example.com").unwrap_err();
    assert_eq!(e.message(), "Given email address is invalid");
    assert_eq!(domain_of_checked_addr(true, "a@b@c").unwrap(), "b");
    assert_eq!(domain_of_checked_addr(true, "a@").unwrap(), "");
}

#[test]
fn only_https_urls_are_accepted() {
    assert_eq!(accept_announced_url(s("https://x/y"), Some(s("https"))), Some(s("https://x/y")));
    assert_eq!(accept_announced_url(s("http://x/y"), Some(s("http"))), None);
    assert_eq!(accept_announced_url(s("nonsense"), None), None);
}

#[test]
fn invalid_response_message() {
    let e = invalid_response("oops");
    assert!(matches!(e.kind(), ErrorKind::InvalidResponse));
    assert_eq!(e.message(), "HTTP request failed: oops");
}

#[test]
fn candidate_urls_ignore_order_and_repetition_of_announced_urls() {
    let a = candidate_urls(
        "example.net",
        vec![s("https://b.example.net/c.xml"), s("https://a.example.net/c.xml")],
    );
    let b = candidate_urls(
        "example.net",
        vec![
            s("https://a.example.net/c.xml"),
            s("https://b.example.net/c.xml"),
            s("https://a.example.net/c.xml"),
        ],
    );
    assert_eq!(a, b);
    assert_eq!(a.len(), 5);
}
