use vdovitsa::dns::domain_name::{DomainName, DomainNameParseError};

fn parse(text: &str) -> DomainName {
    DomainName::parse(text).unwrap()
}

#[test]
fn parses_a_bare_name() {
    let name = parse("example.com");
    assert_eq!(name.tld(), "com");
    assert_eq!(name.domain(), "example");
    assert_eq!(name.subdomains(), &None);
}

#[test]
fn parses_subdomains_outermost_first() {
    let name = parse("a.b.example.com");
    assert_eq!(name.tld(), "com");
    assert_eq!(name.domain(), "example");
    assert_eq!(name.subdomains(), &Some(vec!["a".to_string(), "b".to_string()]));
}

#[test]
fn round_trips_through_text() {
    for text in ["example.com", "a.example.com", "a.b.c.example.org", "x..y", ".com"] {
        assert_eq!(parse(text).to_string(), text);
    }
}

#[test]
fn drops_trailing_dots() {
    assert_eq!(parse("example.com.").to_string(), "example.com");
    assert_eq!(parse("www.example.com...").to_string(), "www.example.com");
    assert_eq!(parse("example.com."), parse("example.com"));
}

#[test]
fn rejects_a_single_label() {
    assert!(DomainName::parse("localhost").is_err());
    assert!(DomainName::parse("com.").is_err());
    assert!(DomainName::parse("").is_err());
    assert!(DomainName::parse("...").is_err());
}

#[test]
fn parse_error_has_a_message() {
    let error: DomainNameParseError = DomainName::parse("com").unwrap_err();
    assert_eq!(error.to_string(), "Failed to parse domain name!");
}

#[test]
fn keeps_empty_labels() {
    let name = parse("a..com");
    assert_eq!(name.tld(), "com");
    assert_eq!(name.domain(), "");
    assert_eq!(name.subdomains(), &Some(vec!["a".to_string()]));
}

#[test]
fn handles_text_beyond_ascii() {
    let name = parse("b\u{fc}cher.example.\u{4e2d}\u{56fd}");
    assert_eq!(name.tld(), "\u{4e2d}\u{56fd}");
    assert_eq!(name.domain(), "example");
    assert_eq!(name.subdomains(), &Some(vec!["b\u{fc}cher".to_string()]));
    assert_eq!(name.to_string(), "b\u{fc}cher.example.\u{4e2d}\u{56fd}");
}

#[test]
fn subdomain_relation_on_named_cases() {
    assert!(parse("a.b.example.com").is_subdomain_of(&parse("example.com")));
    assert!(!parse("example.com").is_subdomain_of(&parse("a.example.com")));
    assert!(!parse("example.com").is_subdomain_of(&parse("example.com")));
    assert!(!parse("x.example.org").is_subdomain_of(&parse("example.com")));
}

#[test]
fn subdomain_relation_aligns_from_the_right() {
    assert!(parse("a.b.example.com").is_subdomain_of(&parse("b.example.com")));
    assert!(!parse("a.b.example.com").is_subdomain_of(&parse("a.example.com")));
    assert!(!parse("b.example.com").is_subdomain_of(&parse("a.b.example.com")));
    assert!(!parse("a.b.example.com").is_subdomain_of(&parse("a.b.example.com")));
    assert!(!parse("a.c.example.com").is_subdomain_of(&parse("b.example.com")));
    assert!(!parse("a.example.com").is_subdomain_of(&parse("a.other.com")));
}

#[test]
fn superdomain_is_the_converse() {
    assert!(parse("example.com").is_superdomain_of(&parse("a.b.example.com")));
    assert!(parse("b.example.com").is_superdomain_of(&parse("a.b.example.com")));
    assert!(!parse("a.example.com").is_superdomain_of(&parse("example.com")));
    assert!(!parse("example.com").is_superdomain_of(&parse("example.com")));
}

#[test]
fn equality_is_by_parts() {
    assert_eq!(parse("a.example.com"), parse("a.example.com"));
    assert_ne!(parse("a.example.com"), parse("b.example.com"));
    assert_ne!(parse("a.example.com"), parse("example.com"));
    assert_ne!(parse("example.com"), parse("example.org"));
    assert_eq!(parse("a.example.com").clone(), parse("a.example.com"));
}

#[test]
fn registrable_name_is_shared_across_subdomains() {
    assert!(parse("a.example.com").shares_registrable_name(&parse("b.c.example.com")));
    assert!(!parse("a.example.com").shares_registrable_name(&parse("a.example.org")));
    assert!(!parse("a.example.com").shares_registrable_name(&parse("a.sample.com")));
}
