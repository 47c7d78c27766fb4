use vdovitsa::crawler::crawl_target::CrawlTarget;
use vdovitsa::crawler::crawler_config::{seed_targets, CrawlerConfig};
use vdovitsa::crawler::{Crawler, CrawlerError};
use vdovitsa::dns::domain_name::DomainName;
use vdovitsa::web::host::Host;
use vdovitsa::web::link::ParsedLink;
use vdovitsa::crawler::target_set::TargetSet;

fn named(name: &str) -> CrawlTarget {
    CrawlTarget::new(Host::Domain(DomainName::parse(name).unwrap()))
}

fn lines(texts: &[&str]) -> Vec<String> {
    texts.iter().map(|text| text.to_string()).collect()
}

#[test]
fn target_wraps_its_host() {
    let host = Host::Domain(DomainName::parse("example.com").unwrap());
    let target = CrawlTarget::new(host.clone());
    assert_eq!(target.host(), &host);
    assert_eq!(target, named("example.com"));
    assert_ne!(target, named("www.example.com"));
    assert_eq!(CrawlTarget::new(Host::Ipv4(3)), CrawlTarget::new(Host::Ipv4(3)));
    assert_ne!(CrawlTarget::new(Host::Ipv4(3)), CrawlTarget::new(Host::Ipv6(3)));
    assert_eq!(target.clone(), target);
}

#[test]
fn equal_targets_hash_alike() {
    let mut set = std::collections::HashSet::new();
    assert!(set.insert(named("example.com")));
    assert!(!set.insert(named("example.com.")));
    assert!(set.insert(named("www.example.com")));
    assert!(set.insert(CrawlTarget::new(Host::Ipv4(1))));
    assert!(!set.insert(CrawlTarget::new(Host::Ipv4(1))));
    assert!(set.insert(CrawlTarget::new(Host::Ipv6(1))));
    assert_eq!(set.len(), 4);
    assert!(set.contains(&named("www.example.com")));
}

#[test]
fn settings_are_copied_whole() {
    let seeds = seed_targets(&lines(&["example.com", "example.org"]));
    let config = CrawlerConfig {
        initial_targets: seeds.targets,
        crawl_subdomains: true,
        db_path: "pages.db".to_string(),
    };
    let copy = config.clone();
    assert_eq!(copy.initial_targets.targets(), config.initial_targets.targets());
    assert_eq!(copy.crawl_subdomains, config.crawl_subdomains);
    assert_eq!(copy.db_path, config.db_path);
}

#[test]
fn only_http_and_https_are_supported() {
    let link = |scheme: &str| ParsedLink {
        scheme: scheme.to_string(),
        host: None,
        host_text: None,
        text: String::new(),
    };
    assert!(CrawlTarget::is_url_scheme_supported(&link("http")));
    assert!(CrawlTarget::is_url_scheme_supported(&link("https")));
    assert!(!CrawlTarget::is_url_scheme_supported(&link("ftp")));
    assert!(!CrawlTarget::is_url_scheme_supported(&link("httpx")));
    assert!(!CrawlTarget::is_url_scheme_supported(&link("HTTP")));
    assert!(!CrawlTarget::is_url_scheme_supported(&link("")));
}

#[test]
fn set_holds_each_target_once() {
    let mut set = TargetSet::new();
    assert_eq!(set.len(), 0);
    assert!(!set.contains(&named("example.com")));
    assert!(set.insert(named("example.com")));
    assert!(set.insert(named("blog.example.com")));
    assert!(!set.insert(named("example.com")));
    assert!(!set.insert(named("example.com.")));
    assert_eq!(set.len(), 2);
    assert!(set.contains(&named("example.com")));
    assert!(set.contains(&named("blog.example.com")));
    assert!(!set.contains(&named("other.org")));
    assert_eq!(set.targets(), &vec![named("example.com"), named("blog.example.com")]);
    let copy = set.clone();
    assert_eq!(copy.targets(), set.targets());
}

#[test]
fn seed_lines_are_parsed_one_by_one() {
    let seeds = seed_targets(&lines(&[
        "example.com",
        "localhost",
        "www.example.org.",
        "",
        "example.com.",
        "no-dots-here",
    ]));
    assert_eq!(seeds.targets.targets(), &vec![named("example.com"), named("www.example.org")]);
    assert_eq!(seeds.skipped, lines(&["localhost", "", "no-dots-here"]));
}

#[test]
fn no_seed_lines_give_no_targets() {
    let seeds = seed_targets(&Vec::new());
    assert_eq!(seeds.targets.len(), 0);
    assert!(seeds.skipped.is_empty());
}

#[test]
fn crawl_starts_with_the_initial_targets() {
    let seeds = seed_targets(&lines(&["example.com", "example.org"]));
    let config = CrawlerConfig {
        initial_targets: seeds.targets,
        crawl_subdomains: true,
        db_path: "/tmp/pages.db".to_string(),
    };
    let crawler = Crawler::new(config);
    assert_eq!(crawler.targets().targets(), &vec![named("example.com"), named("example.org")]);
    assert!(crawler.config().crawl_subdomains);
    assert_eq!(crawler.config().db_path, "/tmp/pages.db");
    assert_eq!(crawler.config().initial_targets.len(), 2);
}

#[test]
fn found_target_joins_the_set_once() {
    let seeds = seed_targets(&lines(&["example.com"]));
    let config = CrawlerConfig {
        initial_targets: seeds.targets,
        crawl_subdomains: true,
        db_path: String::new(),
    };
    let mut crawler = Crawler::new(config);
    assert_eq!(crawler.discover(named("blog.example.com")), Some(named("blog.example.com")));
    assert_eq!(crawler.discover(named("blog.example.com")), None);
    assert_eq!(crawler.discover(named("example.com")), None);
    assert_eq!(crawler.discover(named("shop.example.com")), Some(named("shop.example.com")));
    assert_eq!(crawler.discover(named("blog.example.com")), None);
    assert_eq!(crawler.targets().len(), 3);
    assert_eq!(
        crawler.targets().targets(),
        &vec![named("example.com"), named("blog.example.com"), named("shop.example.com")]
    );
    assert_eq!(crawler.config().initial_targets.len(), 1);
}

#[test]
fn crawler_error_carries_its_message() {
    assert_eq!(CrawlerError::new().to_string(), "Crawl Target Error");
    assert_eq!(
        CrawlerError::with_message("Failed to initialse web client.").to_string(),
        "Failed to initialse web client."
    );
    assert_eq!(CrawlerError::with_message("").to_string(), "");
}
