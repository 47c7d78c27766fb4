use std::collections::{HashMap, VecDeque};
use vdovitsa::crawler::crawl_target::CrawlTarget;
use vdovitsa::crawler::crawler_config::{seed_targets, CrawlerConfig};
use vdovitsa::crawler::Crawler;
use vdovitsa::crawler::page_fetcher::{FetchAction, FetchEvent, PageFetcher, PageRecord};
use vdovitsa::crawler::target_crawler::{FetchRequest, LinkAction, TargetCrawler};

struct Outcome {
    fetched: Vec<String>,
    stored: Vec<PageRecord>,
    targets: Vec<String>,
    started: Vec<String>,
}

fn page(links: &[&str]) -> String {
    let mut body = String::from("<html><body>");
    for link in links {
        body.push_str("<a href=\"");
        body.push_str(link);
        body.push_str("\">link</a>");
    }
    body.push_str("</body></html>");
    body
}

fn fetch_page(request: FetchRequest, web: &HashMap<String, String>, outcome: &mut Outcome) -> Vec<String> {
    outcome.fetched.push(request.url.clone());
    let body = web.get(&request.url).cloned();
    let mut fetcher = PageFetcher::new(request);
    let Some(body) = body else {
        assert_eq!(fetcher.on_event(FetchEvent::Failed), FetchAction::Stop);
        return Vec::new();
    };
    let head = FetchEvent::Response { status: 200, content_type: Some(b"text/html".to_vec()) };
    assert_eq!(fetcher.on_event(head), FetchAction::ReadBody);
    let FetchAction::Store(record) = fetcher.on_event(FetchEvent::Body(body)) else {
        panic!("a page that was read is stored");
    };
    outcome.stored.push(record);
    match fetcher.on_event(FetchEvent::Stored) {
        FetchAction::Report(links) => links,
        FetchAction::Stop => Vec::new(),
        other => panic!("unexpected action {:?}", other),
    }
}

fn crawl_target(
    target: CrawlTarget,
    config: &CrawlerConfig,
    web: &HashMap<String, String>,
    outcome: &mut Outcome,
) -> Vec<CrawlTarget> {
    outcome.started.push(target.host().to_string());
    let mut found = Vec::new();
    let mut crawler = TargetCrawler::new(target, config);
    let mut batches: VecDeque<Vec<String>> = VecDeque::new();
    if let LinkAction::Fetch(request) = crawler.root_request() {
        batches.push_back(fetch_page(request, web, outcome));
    }
    let mut rounds = 0;
    while let Some(batch) = batches.pop_front() {
        rounds += 1;
        assert!(rounds < 10_000, "the crawl of a target comes to an end");
        for action in crawler.on_links(&batch) {
            match action {
                LinkAction::Fetch(request) => batches.push_back(fetch_page(request, web, outcome)),
                LinkAction::NewTarget(target) => found.push(target),
                LinkAction::Discard => {}
            }
        }
    }
    found
}

fn crawl(seeds: &[&str], crawl_subdomains: bool, pages: &[(&str, String)]) -> Outcome {
    let web: HashMap<String, String> =
        pages.iter().map(|(url, body)| (url.to_string(), body.clone())).collect();
    let lines: Vec<String> = seeds.iter().map(|seed| seed.to_string()).collect();
    let config = CrawlerConfig {
        initial_targets: seed_targets(&lines).targets,
        crawl_subdomains,
        db_path: String::new(),
    };
    let mut crawler = Crawler::new(config);
    let mut outcome =
        Outcome { fetched: Vec::new(), stored: Vec::new(), targets: Vec::new(), started: Vec::new() };
    let mut waiting: VecDeque<CrawlTarget> = crawler.targets().targets().iter().cloned().collect();
    while let Some(target) = waiting.pop_front() {
        let config = crawler.config().clone();
        for found in crawl_target(target, &config, &web, &mut outcome) {
            if let Some(fresh) = crawler.discover(found) {
                waiting.push_back(fresh);
            }
        }
    }
    outcome.targets = crawler.targets().targets().iter().map(|target| target.host().to_string()).collect();
    outcome
}

#[test]
fn crawl_follows_own_links_and_takes_on_related_hosts() {
    let outcome = crawl(
        &["example.com"],
        true,
        &[
            (
                "https://example.com/",
                page(&["/about", "http://example.com/contact", "http://blog.example.com/", "http://other.org/"]),
            ),
            ("https://example.com/about", page(&[])),
            ("http://example.com/contact", page(&[])),
            ("https://blog.example.com/", page(&[])),
        ],
    );
    assert_eq!(
        outcome.fetched,
        vec![
            "https://example.com/",
            "https://example.com/about",
            "http://example.com/contact",
            "https://blog.example.com/",
        ]
    );
    assert_eq!(outcome.targets, vec!["example.com", "blog.example.com"]);
    assert_eq!(outcome.started, vec!["example.com", "blog.example.com"]);
    assert!(outcome.fetched.iter().all(|url| !url.contains("other.org")));
    assert_eq!(outcome.stored.len(), 4);
    assert_eq!(outcome.stored[1].url, "https://example.com/about");
    assert_eq!(outcome.stored[1].target, "example.com");
    assert_eq!(outcome.stored[3].target, "blog.example.com");
}

#[test]
fn related_host_never_joins_where_subdomains_are_off() {
    let outcome = crawl(
        &["example.com"],
        false,
        &[
            ("https://example.com/", page(&["/a", "http://blog.example.com/", "https://shop.example.com/x"])),
            ("https://example.com/a", page(&["http://blog.example.com/", "/"])),
            ("https://blog.example.com/", page(&["/never"])),
        ],
    );
    assert_eq!(outcome.targets, vec!["example.com"]);
    assert_eq!(outcome.started, vec!["example.com"]);
    assert_eq!(outcome.fetched, vec!["https://example.com/", "https://example.com/a"]);
}

#[test]
fn related_host_found_on_many_pages_joins_once() {
    let outcome = crawl(
        &["example.com"],
        true,
        &[
            ("https://example.com/", page(&["/a", "/b", "http://blog.example.com/"])),
            ("https://example.com/a", page(&["http://blog.example.com/x", "https://blog.example.com/"])),
            ("https://example.com/b", page(&["http://blog.example.com/"])),
            ("https://blog.example.com/", page(&["http://example.com/", "http://blog.example.com/"])),
            ("http://blog.example.com/", page(&[])),
        ],
    );
    assert_eq!(outcome.targets, vec!["example.com", "blog.example.com"]);
    assert_eq!(outcome.started, vec!["example.com", "blog.example.com"]);
    assert_eq!(outcome.started.iter().filter(|host| *host == "blog.example.com").count(), 1);
}

#[test]
fn crawl_over_a_cycle_of_pages_ends() {
    let outcome = crawl(
        &["example.com"],
        true,
        &[
            ("https://example.com/", page(&["/a"])),
            ("https://example.com/a", page(&["/b", "/a"])),
            ("https://example.com/b", page(&["/a", "/b", "/"])),
        ],
    );
    assert_eq!(
        outcome.fetched,
        vec!["https://example.com/", "https://example.com/a", "https://example.com/b"]
    );
    let outcome = crawl(
        &["a.example.com", "b.example.com"],
        true,
        &[
            ("https://a.example.com/", page(&["https://b.example.com/", "https://a.example.com/x"])),
            ("https://a.example.com/x", page(&["https://a.example.com/x", "https://a.example.com/"])),
            ("https://b.example.com/", page(&["https://a.example.com/", "https://b.example.com/"])),
        ],
    );
    assert_eq!(outcome.targets, vec!["a.example.com", "b.example.com"]);
    assert_eq!(outcome.started, vec!["a.example.com", "b.example.com"]);
    assert_eq!(
        outcome.fetched,
        vec![
            "https://a.example.com/",
            "https://a.example.com/x",
            "https://a.example.com/",
            "https://b.example.com/",
            "https://b.example.com/",
        ]
    );
}

#[test]
fn pages_that_fail_are_dropped_and_the_rest_goes_on() {
    let outcome = crawl(
        &["example.com", "not-a-host", "example.org"],
        false,
        &[
            ("https://example.com/", page(&["/gone", "/here"])),
            ("https://example.com/here", page(&[])),
        ],
    );
    assert_eq!(outcome.targets, vec!["example.com", "example.org"]);
    assert_eq!(
        outcome.fetched,
        vec![
            "https://example.com/",
            "https://example.com/gone",
            "https://example.com/here",
            "https://example.org/",
        ]
    );
    assert_eq!(outcome.stored.len(), 2);
}
