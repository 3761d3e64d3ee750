//! FQDN tests: the syntax validator and the dotted-text conversions.

use rustdns::fqdn::{FQDN, FQDNParsingError};
use rustdns::resolver::{QuestionHandler, QuestionHandlerT};

fn valid(s: &str) -> bool {
    QuestionHandler::check_fqdn_validity(&String::from(s))
}

#[test]
fn accepts_plain_domains() {
    assert!(valid("example.com"));
    assert!(valid("a.b-c.org"));
    assert!(valid("www.example.com"));
    assert!(valid("xn--80ak6aa92e.com"));
}

#[test]
fn rejects_leading_or_trailing_hyphen() {
    assert!(!valid("-bad.com"));
    assert!(!valid("bad-.com"));
    assert!(!valid("a.-b.org"));
}

#[test]
fn rejects_oversized_labels() {
    let long_label = format!("{}.com", "a".repeat(64));
    assert!(!valid(&long_label));
    let just_fits = format!("{}.com", "a".repeat(63));
    assert!(valid(&just_fits));
}

#[test]
fn rejects_out_of_range_lengths() {
    assert!(!valid("a.b"));
    assert!(valid("a.bc"));
    let mut long = String::new();
    for _ in 0..50 {
        long.push_str("abcd.");
    }
    long.push_str("com");
    assert_eq!(long.len(), 253);
    assert!(valid(&long));
    let too_long = format!("ab{}", long);
    assert!(!valid(&too_long));
}

#[test]
fn rejects_odd_shapes() {
    assert!(!valid("nodots"));
    assert!(!valid("a..com"));
    assert!(!valid(".example.com"));
    assert!(!valid("example.com."));
    assert!(!valid("exam ple.com"));
    assert!(!valid("example.c-m"));
    assert!(!valid("example.c0m"));
}

#[test]
fn fqdn_try_from_splits_on_dots() {
    let f = FQDN::try_from(String::from("example.com")).unwrap();
    assert_eq!(f.subdomain, None);
    assert_eq!(f.domain_name, "example");
    assert_eq!(f.tld, "com");
    let f = FQDN::try_from(String::from("www.example.com")).unwrap();
    assert_eq!(f.subdomain, Some(String::from("www")));
    assert_eq!(f.domain_name, "example");
    assert_eq!(f.tld, "com");
    assert_eq!(
        FQDN::try_from(String::from("a.b.c.d")),
        Err(FQDNParsingError::Missing)
    );
    assert_eq!(
        FQDN::try_from(String::from("nodots")),
        Err(FQDNParsingError::Missing)
    );
}

#[test]
fn fqdn_accessors() {
    let f = FQDN {
        subdomain: Some(String::from("www")),
        domain_name: String::from("example"),
        tld: String::from("com"),
    };
    assert_eq!(f.len(), 13);
    assert_eq!(f.split(), vec!["www", "example", "com"]);
    assert_eq!(f.to_string(), "www.example.com");
    let bare = FQDN::new();
    assert_eq!(bare.len(), 0);
}
