//! Crawl targets: the hosts that are crawled one by one.

use crate::web::host::{Host, HostView};
use crate::web::link::{ParsedLink, ParsedLinkView};
use vstd::prelude::*;
use vstd::std_specs::cmp::PartialEqSpecImpl;

verus! {

/// Whether a link's scheme is one that can be crawled: `http` or `https`.
pub open spec fn scheme_supported(link: ParsedLinkView) -> bool {
    link.scheme == "http"@ || link.scheme == "https"@
}

/// A crawl target: one host, crawled on its own.
#[derive(Debug, Hash)]
pub struct CrawlTarget {
    host: Host,
}

impl View for CrawlTarget {
    type V = HostView;

    closed spec fn view(&self) -> HostView {
        self.host@
    }
}

impl CrawlTarget {
    /// The target that stands for `host`.
    pub fn new(host: Host) -> (target: CrawlTarget)
        ensures
            target@ == host@,
    {
        CrawlTarget { host }
    }

    /// Returns the host of the crawl target
    pub fn host(&self) -> (host: &Host)
        ensures
            host@ == self@,
    {
        &self.host
    }

    /// Whether the scheme of a link is one that can be crawled.
    pub fn is_url_scheme_supported(url: &ParsedLink) -> (supported: bool)
        ensures
            supported == scheme_supported(url@),
    {
        let http = "http".to_owned();
        let https = "https".to_owned();
        url.scheme == http || url.scheme == https
    }
}

impl PartialEq for CrawlTarget {
    /// Two targets are equal where their hosts are.
    fn eq(&self, other: &Self) -> (same: bool) {
        self.host == other.host
    }
}

impl PartialEqSpecImpl for CrawlTarget {
    open spec fn obeys_eq_spec() -> bool {
        true
    }

    open spec fn eq_spec(&self, other: &Self) -> bool {
        self@ == other@
    }
}

impl Eq for CrawlTarget {

}

impl Clone for CrawlTarget {
    fn clone(&self) -> (copy: Self)
        ensures
            copy@ == self@,
    {
        CrawlTarget { host: self.host.clone() }
    }
}

} // verus!
