//! The crawl of one target: which of the links found on its pages are
//! fetched, which name a new target, and which are dropped.

use crate::crawler::crawl_target::{scheme_supported, CrawlTarget};
use crate::crawler::crawler_config::CrawlerConfig;
use crate::web::host::{Host, HostRelationship, HostView};
use crate::web::link::{parse_url, parsed_link, parts_of, ParsedLink, ParsedLinkView};
use crate::text::{optional_text, texts};
use vstd::hash_set::StringHashSet;
use vstd::prelude::*;

verus! {

/// A page to fetch, as plain values.
pub struct FetchRequestView {
    /// The address of the page.
    pub url: Seq<char>,
    /// The host of that address.
    pub host: Seq<char>,
}

/// A page to fetch.
#[derive(Debug, Clone, PartialEq, Eq)]
pub struct FetchRequest {
    /// The address of the page, in its normalized spelling.
    pub url: String,
    /// The host of that address, as the address spells it.
    pub host: String,
}

impl View for FetchRequest {
    type V = FetchRequestView;

    open spec fn view(&self) -> FetchRequestView {
        FetchRequestView { url: self.url@, host: self.host@ }
    }
}

/// What becomes of a link, as plain values.
pub enum LinkActionView {
    /// The page is fetched.
    Fetch(FetchRequestView),
    /// The host is handed up as a new target.
    NewTarget(HostView),
    /// Nothing is done.
    Discard,
}

/// What becomes of a link.
#[derive(Debug, Clone, PartialEq, Eq)]
pub enum LinkAction {
    /// Fetch this page: it belongs to the target and was not seen before.
    Fetch(FetchRequest),
    /// Hand this target up: its host is related to the target's.
    NewTarget(CrawlTarget),
    /// Do nothing.
    Discard,
}

impl View for LinkAction {
    type V = LinkActionView;

    open spec fn view(&self) -> LinkActionView {
        match self {
            LinkAction::Fetch(request) => LinkActionView::Fetch(request@),
            LinkAction::NewTarget(target) => LinkActionView::NewTarget(target@),
            LinkAction::Discard => LinkActionView::Discard,
        }
    }
}

/// The actions of `v` as plain values, in order.
pub open spec fn actions_of(v: Seq<LinkAction>) -> Seq<LinkActionView> {
    Seq::new(v.len(), |i: int| v[i]@)
}

/// A link that starts at the root of the target: a slash and at least one
/// more character.
pub open spec fn is_root_relative(link: Seq<char>) -> bool {
    link.len() > 1 && link[0] == '/'
}

/// The fetch of the page at an address, given the text of the address and
/// its host as spelled: none where there is no host.
pub open spec fn page_request(url: Seq<char>, host_text: Option<Seq<char>>) -> LinkActionView {
    match host_text {
        Some(host) => LinkActionView::Fetch(FetchRequestView { url, host }),
        None => LinkActionView::Discard,
    }
}

/// The fetch that a parsed address asks for: none where the address did not
/// parse or has no host.
pub open spec fn request_for(parsed: Option<ParsedLinkView>) -> LinkActionView {
    match parsed {
        Some(link) => page_request(link.text, link.host_text),
        None => LinkActionView::Discard,
    }
}

/// The state of the crawl of one target, as plain values.
#[verifier::ext_equal]
pub struct TargetCrawlerView {
    /// The host that is crawled.
    pub host: HostView,
    /// Whether related hosts are handed up as new targets.
    pub crawl_subdomains: bool,
    /// The keys of the pages seen so far.
    pub seen: Set<Seq<char>>,
}

impl TargetCrawlerView {
    /// The state in which the crawl of `host` starts: only the host itself
    /// counts as seen.
    pub open spec fn start(host: HostView, crawl_subdomains: bool) -> TargetCrawlerView {
        TargetCrawlerView { host, crawl_subdomains, seen: set![host.text()] }
    }

    /// The address of the first page of the crawl: the root of the host.
    pub open spec fn root_url(self) -> Seq<char> {
        "https://"@ + self.host.text() + "/"@
    }

    /// The key under which a root-relative link is remembered: the host and
    /// the path, with no scheme.
    pub open spec fn relative_key(self, link: Seq<char>) -> Seq<char> {
        self.host.text() + link
    }

    /// A page under `key` is asked for. Where the key was seen before,
    /// nothing happens. Else the key counts as seen from now on, and what
    /// was wanted is done.
    pub open spec fn visit(self, key: Seq<char>, wanted: LinkActionView) -> (
        TargetCrawlerView,
        LinkActionView,
    ) {
        if self.seen.contains(key) {
            (self, LinkActionView::Discard)
        } else {
            (TargetCrawlerView { seen: self.seen.insert(key), ..self }, wanted)
        }
    }

    /// What becomes of a link that is not root-relative, given what parsing
    /// made of it. It is dropped where it did not parse, where its scheme is
    /// neither `http` nor `https`, where it has no host, and where its host
    /// is a domain name of fewer than two labels. Else its host decides: the
    /// target's own host has the page visited under the link's normalized
    /// text; a related host is handed up as a new target where the settings
    /// ask for that, and dropped where not; an unrelated one is dropped.
    pub open spec fn on_absolute(self, parsed: Option<ParsedLinkView>) -> (
        TargetCrawlerView,
        LinkActionView,
    ) {
        match parsed {
            Some(link) => {
                if !scheme_supported(link) {
                    (self, LinkActionView::Discard)
                } else {
                    match link.host {
                        Some(link_host) => match HostView::from_link_host(link_host) {
                            Some(host) => match self.host.relationship(host) {
                                HostRelationship::Same => self.visit(
                                    link.text,
                                    request_for(parsed),
                                ),
                                HostRelationship::Related => if self.crawl_subdomains {
                                    (self, LinkActionView::NewTarget(host))
                                } else {
                                    (self, LinkActionView::Discard)
                                },
                                HostRelationship::Unrelated => (self, LinkActionView::Discard),
                            },
                            None => (self, LinkActionView::Discard),
                        },
                        None => (self, LinkActionView::Discard),
                    }
                }
            },
            None => (self, LinkActionView::Discard),
        }
    }

    /// What becomes of a link. A root-relative link is visited under the
    /// host and the path; its page has the address `https://`, host, path.
    /// Any other link is parsed as an absolute address and goes by its host.
    pub open spec fn on_link(self, link: Seq<char>) -> (TargetCrawlerView, LinkActionView) {
        if is_root_relative(link) {
            let key = self.relative_key(link);
            self.visit(key, request_for(parsed_link("https://"@ + key)))
        } else {
            self.on_absolute(parsed_link(link))
        }
    }

    /// What becomes of a batch of links, taken one after the other.
    pub open spec fn on_links(self, links: Seq<Seq<char>>) -> (
        TargetCrawlerView,
        Seq<LinkActionView>,
    )
        decreases links.len(),
    {
        if links.len() == 0 {
            (self, Seq::<LinkActionView>::empty())
        } else {
            let (before, actions) = self.on_links(links.drop_last());
            let (after, action) = before.on_link(links.last());
            (after, actions.push(action))
        }
    }
}

/// How many of the actions are fetches.
pub open spec fn count_fetches(actions: Seq<LinkActionView>) -> nat
    decreases actions.len(),
{
    if actions.len() == 0 {
        0
    } else {
        count_fetches(actions.drop_last()) + if actions.last() is Fetch {
            1nat
        } else {
            0nat
        }
    }
}

/// The key under which a link would be remembered by the crawl of `host`,
/// where it is one that can be visited at all.
pub open spec fn key_of(host: HostView, link: Seq<char>) -> Option<Seq<char>> {
    if is_root_relative(link) {
        Some(host.text() + link)
    } else {
        match parsed_link(link) {
            Some(parsed) => Some(parsed.text),
            None => None,
        }
    }
}

/// A link that is fed a second time changes nothing and is never fetched:
/// no page is fetched twice. A root-relative link is dropped the second
/// time.
pub proof fn link_is_fetched_at_most_once(state: TargetCrawlerView, link: Seq<char>)
    ensures
        state.on_link(link).0.on_link(link).0 == state.on_link(link).0,
        !(state.on_link(link).0.on_link(link).1 is Fetch),
        is_root_relative(link) ==> state.on_link(link).0.on_link(link).1 is Discard,
{
    let first = state.on_link(link);
    let second = first.0.on_link(link);
    assert(first.0.host == state.host && first.0.crawl_subdomains == state.crawl_subdomains);
    assert(second.0 =~= first.0);
}

/// Hosts are handed up only where the settings ask for it, and only hosts
/// related to the target: with `crawl_subdomains` off no link names a new
/// target. The host and the settings of a crawl never change.
pub proof fn related_hosts_are_gated(state: TargetCrawlerView, link: Seq<char>)
    ensures
        !state.crawl_subdomains ==> !(state.on_link(link).1 is NewTarget),
        state.on_link(link).1 matches LinkActionView::NewTarget(host) ==> state.crawl_subdomains
            && state.host.relationship(host) == HostRelationship::Related,
        state.on_link(link).0.host == state.host,
        state.on_link(link).0.crawl_subdomains == state.crawl_subdomains,
{
}

/// The same over a batch: with `crawl_subdomains` off no link of the batch
/// names a new target, and every target named is related to the crawl's own.
pub proof fn related_hosts_are_gated_in_batches(state: TargetCrawlerView, links: Seq<Seq<char>>)
    ensures
        state.on_links(links).0.host == state.host,
        state.on_links(links).0.crawl_subdomains == state.crawl_subdomains,
        state.on_links(links).1.len() == links.len(),
        forall|i: int|
            0 <= i < links.len() ==> (#[trigger] state.on_links(links).1[i]
                matches LinkActionView::NewTarget(host) ==> state.crawl_subdomains
                && state.host.relationship(host) == HostRelationship::Related),
    decreases links.len(),
{
    if links.len() > 0 {
        related_hosts_are_gated_in_batches(state, links.drop_last());
        let before = state.on_links(links.drop_last());
        related_hosts_are_gated(before.0, links.last());
        let actions = state.on_links(links).1;
        assert forall|i: int| 0 <= i < links.len() implies (#[trigger] actions[i]
            matches LinkActionView::NewTarget(host) ==> state.crawl_subdomains
            && state.host.relationship(host) == HostRelationship::Related) by {
            if i < links.len() - 1 {
                assert(actions[i] == before.1[i]);
            }
        }
    }
}

/// Every fetch uses up a key that was not seen before, and seen keys stay
/// seen. So a crawl fetches no more pages than its links have keys: over a
/// finite set of pages it comes to an end, however the pages link to one
/// another.
pub proof fn fetches_use_up_unseen_keys(state: TargetCrawlerView, links: Seq<Seq<char>>)
    requires
        state.seen.finite(),
    ensures
        state.on_links(links).0.seen.finite(),
        state.seen.subset_of(state.on_links(links).0.seen),
        state.on_links(links).0.seen.len() >= state.seen.len() + count_fetches(
            state.on_links(links).1,
        ),
        forall|key: Seq<char>| #[trigger]
            state.on_links(links).0.seen.contains(key) ==> state.seen.contains(key) || exists|
                i: int,
            |
                0 <= i < links.len() && key_of(state.host, #[trigger] links[i]) == Some(key),
    decreases links.len(),
{
    if links.len() > 0 {
        let shorter = links.drop_last();
        fetches_use_up_unseen_keys(state, shorter);
        related_hosts_are_gated_in_batches(state, shorter);
        let before = state.on_links(shorter);
        let after = before.0.on_link(links.last());
        let actions = state.on_links(links).1;
        assert(actions.drop_last() == before.1);
        assert(actions.last() == after.1);
        assert(state.on_links(links).0 == after.0);
        assert forall|key: Seq<char>| #[trigger] after.0.seen.contains(key) implies state.seen.contains(
            key,
        ) || exists|i: int|
            0 <= i < links.len() && key_of(state.host, #[trigger] links[i]) == Some(key) by {
            if before.0.seen.contains(key) {
                if !state.seen.contains(key) {
                    let i = choose|i: int|
                        0 <= i < shorter.len() && key_of(state.host, #[trigger] shorter[i]) == Some(
                            key,
                        );
                    assert(links[i] == shorter[i]);
                }
            } else {
                assert(key_of(state.host, links[links.len() - 1]) == Some(key));
            }
        }
    }
}

/// Feeding one batch after another is feeding all their links in a row.
pub proof fn batches_compose(
    state: TargetCrawlerView,
    first: Seq<Seq<char>>,
    second: Seq<Seq<char>>,
)
    ensures
        state.on_links(first + second).0 == state.on_links(first).0.on_links(second).0,
        state.on_links(first + second).1 == state.on_links(first).1 + state.on_links(first).0.on_links(
            second,
        ).1,
    decreases second.len(),
{
    let middle = state.on_links(first);
    if second.len() == 0 {
        assert(first + second == first);
        assert(middle.1 + Seq::<LinkActionView>::empty() == middle.1);
    } else {
        batches_compose(state, first, second.drop_last());
        assert((first + second).drop_last() == first + second.drop_last());
        assert((first + second).last() == second.last());
        let before = middle.0.on_links(second.drop_last());
        let step = before.0.on_link(second.last());
        assert(middle.1 + before.1.push(step.1) == (middle.1 + before.1).push(step.1));
    }
}

/// Where all keys of the links that a crawl is fed lie in a finite set, the
/// crawl fetches no more pages than that set has keys, in whatever order and
/// however often the links come.
pub proof fn fetches_are_bounded(
    state: TargetCrawlerView,
    links: Seq<Seq<char>>,
    keys: Set<Seq<char>>,
)
    requires
        state.seen.finite(),
        keys.finite(),
        forall|i: int|
            0 <= i < links.len() ==> (key_of(state.host, #[trigger] links[i]) matches Some(key)
                ==> keys.contains(key)),
    ensures
        count_fetches(state.on_links(links).1) <= keys.len(),
{
    fetches_use_up_unseen_keys(state, links);
    let after = state.on_links(links).0.seen;
    assert(after.subset_of(state.seen.union(keys))) by {
        assert forall|key: Seq<char>| after.contains(key) implies state.seen.union(keys).contains(
            key,
        ) by {
            if !state.seen.contains(key) {
                let i = choose|i: int|
                    0 <= i < links.len() && key_of(state.host, #[trigger] links[i]) == Some(key);
                assert(keys.contains(key));
            }
        }
    }
    vstd::set_lib::lemma_set_union_finite_iff(state.seen, keys);
    vstd::set_lib::lemma_len_subset(after, state.seen.union(keys));
    vstd::set_lib::lemma_len_union(state.seen, keys);
}

/// The crawl of one target. It remembers which pages it has asked for, so
/// that none is fetched twice.
pub struct TargetCrawler {
    target: CrawlTarget,
    crawl_subdomains: bool,
    seen: StringHashSet,
}

impl View for TargetCrawler {
    type V = TargetCrawlerView;

    closed spec fn view(&self) -> TargetCrawlerView {
        TargetCrawlerView {
            host: self.target@,
            crawl_subdomains: self.crawl_subdomains,
            seen: self.seen@,
        }
    }
}

/// The action that fetches the page at an address, given the text of the
/// address and its host as spelled.
fn fetch_page(url: String, host_text: Option<String>) -> (action: LinkAction)
    ensures
        action@ == page_request(url@, optional_text(host_text)),
{
    match host_text {
        Some(host) => LinkAction::Fetch(FetchRequest { url, host }),
        None => LinkAction::Discard,
    }
}

/// The action that fetches a parsed address.
pub fn fetch_action(parsed: Option<ParsedLink>) -> (action: LinkAction)
    ensures
        action@ == request_for(parts_of(parsed)),
{
    match parsed {
        Some(link) => fetch_page(link.text, link.host_text),
        None => LinkAction::Discard,
    }
}

/// Whether a link starts at the root of the target.
fn starts_at_root(link: &str) -> (relative: bool)
    ensures
        relative == is_root_relative(link@),
{
    link.unicode_len() > 1 && link.get_char(0) == '/'
}

impl TargetCrawler {
    /// Starts the crawl of `target` under the settings of `config`.
    pub fn new(target: CrawlTarget, config: &CrawlerConfig) -> (crawler: TargetCrawler)
        ensures
            crawler@ == TargetCrawlerView::start(target@, config.crawl_subdomains),
    {
        let mut seen = StringHashSet::new();
        seen.insert(target.host().to_string());
        let crawler = TargetCrawler { target, crawl_subdomains: config.crawl_subdomains, seen };
        assert(crawler@.seen =~= set![target@.text()]);
        crawler
    }

    /// The target of this crawl.
    pub fn target(&self) -> (target: &CrawlTarget)
        ensures
            target@ == self@.host,
    {
        &self.target
    }

    /// Whether a page was asked for under `key` before.
    pub fn has_seen(&self, key: &str) -> (seen: bool)
        ensures
            seen == self@.seen.contains(key@),
    {
        self.seen.contains(key)
    }

    /// The first page of the crawl: the root of the target, over `https`.
    /// The action is to fetch it, or to do nothing where the host does not
    /// make an address.
    pub fn root_request(&self) -> (action: LinkAction)
        ensures
            action@ == request_for(parsed_link(self@.root_url())),
    {
        let mut url = "https://".to_owned();
        url.append(self.target.host().to_string().as_str());
        url.append("/");
        fetch_action(parse_url(url.as_str()))
    }

    /// Asks for the page under `key`: does what is wanted where the key is
    /// new, and nothing where it was seen before.
    pub fn visit(&mut self, key: String, wanted: LinkAction) -> (action: LinkAction)
        ensures
            final(self)@ == old(self)@.visit(key@, wanted@).0,
            action@ == old(self)@.visit(key@, wanted@).1,
    {
        if self.seen.insert(key) {
            wanted
        } else {
            assert(self@.seen =~= old(self)@.seen);
            LinkAction::Discard
        }
    }

    /// Decides on a link that is not root-relative, given what parsing made
    /// of it.
    pub fn on_absolute(&mut self, parsed: Option<ParsedLink>) -> (action: LinkAction)
        ensures
            final(self)@ == old(self)@.on_absolute(parts_of(parsed)).0,
            action@ == old(self)@.on_absolute(parts_of(parsed)).1,
    {
        let Some(link) = parsed else {
            return LinkAction::Discard;
        };
        if !CrawlTarget::is_url_scheme_supported(&link) {
            return LinkAction::Discard;
        }
        let ParsedLink { scheme: _, host, host_text, text } = link;
        let Some(link_host) = host else {
            return LinkAction::Discard;
        };
        let Ok(found) = Host::try_from(link_host) else {
            return LinkAction::Discard;
        };
        match Host::host_relationship(self.target.host(), &found) {
            HostRelationship::Same => {
                let key = text.clone();
                self.visit(key, fetch_page(text, host_text))
            },
            HostRelationship::Related => {
                if self.crawl_subdomains {
                    LinkAction::NewTarget(CrawlTarget::new(found))
                } else {
                    LinkAction::Discard
                }
            },
            HostRelationship::Unrelated => LinkAction::Discard,
        }
    }

    /// Decides on one link found on a page of the target.
    pub fn on_link(&mut self, link: &str) -> (action: LinkAction)
        ensures
            final(self)@ == old(self)@.on_link(link@).0,
            action@ == old(self)@.on_link(link@).1,
    {
        if starts_at_root(link) {
            let mut key = self.target.host().to_string();
            key.append(link);
            if self.seen.contains(key.as_str()) {
                return LinkAction::Discard;
            }
            let mut url = "https://".to_owned();
            url.append(key.as_str());
            let wanted = fetch_action(parse_url(url.as_str()));
            self.visit(key, wanted)
        } else {
            self.on_absolute(parse_url(link))
        }
    }

    /// Decides on a batch of links, one after the other, and hands back
    /// what becomes of each.
    pub fn on_links(&mut self, links: &Vec<String>) -> (actions: Vec<LinkAction>)
        ensures
            final(self)@ == old(self)@.on_links(texts(links@)).0,
            actions_of(actions@) == old(self)@.on_links(texts(links@)).1,
    {
        let mut actions: Vec<LinkAction> = Vec::new();
        let ghost all = texts(links@);
        let mut i: usize = 0;
        assert(all.take(0) =~= Seq::<Seq<char>>::empty());
        assert(actions_of(actions@) =~= Seq::<LinkActionView>::empty());
        while i < links.len()
            invariant
                i <= links.len(),
                all == texts(links@),
                self@ == old(self)@.on_links(all.take(i as int)).0,
                actions_of(actions@) == old(self)@.on_links(all.take(i as int)).1,
            decreases links.len() - i,
        {
            proof {
                assert(all.take(i + 1).drop_last() == all.take(i as int));
                assert(all.take(i + 1).last() == links[i as int]@);
            }
            let ghost before = actions_of(actions@);
            let action = self.on_link(links[i].as_str());
            actions.push(action);
            assert(actions_of(actions@) =~= before.push(action@));
            i += 1;
        }
        assert(all.take(links.len() as int) == all);
        actions
    }
}

} // verus!
