//! The crawl as a whole: the targets known so far, and what to do when a
//! new one is found.

pub mod crawl_target;
pub mod crawler_config;
pub mod page_fetcher;
pub mod target_crawler;
pub mod target_set;

use crate::crawler::crawl_target::CrawlTarget;
use crate::crawler::crawler_config::CrawlerConfig;
use crate::web::host::{HostRelationship, HostView};
use crate::crawler::target_crawler::{
    related_hosts_are_gated_in_batches, LinkActionView, TargetCrawlerView,
};
use crate::crawler::target_set::TargetSet;
use vstd::prelude::*;

verus! {

/// What becomes of the set of known targets when a target is found: the
/// target is in the set from then on, and it is fresh where it was not in
/// the set before.
pub open spec fn found(known: Set<HostView>, target: HostView) -> (Set<HostView>, bool) {
    (known.insert(target), !known.contains(target))
}

/// The set of known targets after the crawl of one target has handed up
/// what its actions name.
pub open spec fn taking_up(known: Set<HostView>, actions: Seq<LinkActionView>) -> Set<HostView>
    decreases actions.len(),
{
    if actions.len() == 0 {
        known
    } else {
        let before = taking_up(known, actions.drop_last());
        match actions.last() {
            LinkActionView::NewTarget(host) => found(before, host).0,
            _ => before,
        }
    }
}

/// The crawl: it owns the set of all targets, which only grows.
#[derive(Debug)]
pub struct Crawler {
    crawl_targets: TargetSet,
    config: CrawlerConfig,
}

impl View for Crawler {
    type V = Set<HostView>;

    /// The targets known to the crawl.
    closed spec fn view(&self) -> Set<HostView> {
        self.crawl_targets@
    }
}

impl Crawler {
    /// The settings that the crawl was made with.
    pub closed spec fn settings(&self) -> CrawlerConfig {
        self.config
    }

    /// Create a crawler with initial targets.
    pub fn new(config: CrawlerConfig) -> (crawler: Crawler)
        ensures
            crawler@ == config.initial_targets@,
            crawler.settings() == config,
    {
        Crawler { crawl_targets: config.initial_targets.clone(), config }
    }

    /// The targets known so far. Each has a crawler of its own, running or
    /// done.
    pub fn targets(&self) -> (targets: &TargetSet)
        ensures
            targets@ == self@,
    {
        &self.crawl_targets
    }

    /// The settings of the crawl.
    pub fn config(&self) -> (config: &CrawlerConfig)
        ensures
            *config == self.settings(),
    {
        &self.config
    }

    /// Takes note of a target that a crawler has found. A target that is not
    /// yet known joins the set and is handed back: it is to be crawled. One
    /// that is known already is dropped, and nothing changes.
    pub fn discover(&mut self, target: CrawlTarget) -> (fresh: Option<CrawlTarget>)
        ensures
            final(self)@ == found(old(self)@, target@).0,
            fresh is Some == found(old(self)@, target@).1,
            fresh matches Some(added) ==> added@ == target@,
            final(self).settings() == old(self).settings(),
    {
        let copy = target.clone();
        if self.crawl_targets.insert(target) {
            Some(copy)
        } else {
            None
        }
    }
}

/// A target that is found again is not fresh, and the set stays as it is:
/// however often a host is found, it joins the set once and is crawled once.
pub proof fn target_joins_once(known: Set<HostView>, target: HostView)
    ensures
        found(known, target).0.contains(target),
        found(found(known, target).0, target) == (found(known, target).0, false),
{
    assert(known.insert(target).insert(target) == known.insert(target));
}

/// With `crawl_subdomains` off, the crawl of a target never adds to the set
/// of known targets, whatever links it is fed.
pub proof fn gated_crawl_adds_no_target(
    known: Set<HostView>,
    state: TargetCrawlerView,
    links: Seq<Seq<char>>,
)
    requires
        !state.crawl_subdomains,
    ensures
        taking_up(known, state.on_links(links).1) == known,
    decreases links.len(),
{
    if links.len() > 0 {
        let shorter = links.drop_last();
        gated_crawl_adds_no_target(known, state, shorter);
        related_hosts_are_gated_in_batches(state, links);
        let actions = state.on_links(links).1;
        assert(actions.drop_last() == state.on_links(shorter).1);
        assert(!(actions[links.len() - 1] is NewTarget));
    }
}

/// Every host that the crawl of a target adds to the set of known targets is
/// related to that target: an unrelated host never joins.
pub proof fn only_related_hosts_join(
    known: Set<HostView>,
    state: TargetCrawlerView,
    links: Seq<Seq<char>>,
)
    ensures
        known.subset_of(taking_up(known, state.on_links(links).1)),
        forall|host: HostView| #[trigger]
            taking_up(known, state.on_links(links).1).contains(host) ==> known.contains(host)
                || state.host.relationship(host) == HostRelationship::Related,
    decreases links.len(),
{
    if links.len() > 0 {
        let shorter = links.drop_last();
        only_related_hosts_join(known, state, shorter);
        related_hosts_are_gated_in_batches(state, links);
        let actions = state.on_links(links).1;
        assert(actions.drop_last() == state.on_links(shorter).1);
        let last = actions[links.len() - 1];
        assert(last matches LinkActionView::NewTarget(host) ==> state.host.relationship(host)
            == HostRelationship::Related);
    }
}

/// An error of the crawler.
#[derive(Debug)]
pub struct CrawlerError {
    message: String,
}

impl View for CrawlerError {
    type V = Seq<char>;

    /// The message of the error.
    closed spec fn view(&self) -> Seq<char> {
        self.message@
    }
}

impl CrawlerError {
    /// An error with the general message.
    pub fn new() -> (error: CrawlerError)
        ensures
            error@ == "Crawl Target Error"@,
    {
        CrawlerError { message: "Crawl Target Error".to_owned() }
    }

    /// An error with a message of its own.
    pub fn with_message(message: &str) -> (error: CrawlerError)
        ensures
            error@ == message@,
    {
        CrawlerError { message: message.to_owned() }
    }

    /// The message of the error.
    pub fn to_string(&self) -> (text: String)
        ensures
            text@ == self@,
    {
        self.message.clone()
    }
}

} // verus!
