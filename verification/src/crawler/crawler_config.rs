//! What a crawl is set up with.

use crate::crawler::crawl_target::CrawlTarget;
use crate::dns::domain_name::{parse_spec, DomainName};
use crate::web::host::{Host, HostView};
use crate::crawler::target_set::TargetSet;
use crate::text::texts;
use vstd::prelude::*;

verus! {

/// The settings of a crawl. They are made once, before the crawl starts, and
/// only read from then on.
#[derive(Debug)]
pub struct CrawlerConfig {
    /// The targets that the crawl starts from.
    pub initial_targets: TargetSet,
    /// Whether hosts related to a target are taken on as targets of their own.
    pub crawl_subdomains: bool,
    /// Where the fetched pages are stored.
    pub db_path: String,
}

impl Clone for CrawlerConfig {
    fn clone(&self) -> (copy: Self)
        ensures
            copy.initial_targets@ == self.initial_targets@,
            copy.crawl_subdomains == self.crawl_subdomains,
            copy.db_path@ == self.db_path@,
    {
        CrawlerConfig {
            initial_targets: self.initial_targets.clone(),
            crawl_subdomains: self.crawl_subdomains,
            db_path: self.db_path.clone(),
        }
    }
}

/// Whether a seed line names a host: whether it parses as a domain name.
pub open spec fn names_a_host(line: Seq<char>) -> bool {
    parse_spec(line) is Some
}

/// Whether a seed line names this host: whether the host is the domain name
/// that the line parses to.
pub open spec fn names(line: Seq<char>, host: HostView) -> bool {
    host matches HostView::Domain(name) && parse_spec(line) == Some(name)
}

/// The hosts that seed lines name.
pub open spec fn seeded_hosts(lines: Seq<Seq<char>>) -> Set<HostView> {
    Set::new(|host: HostView| exists|i: int| 0 <= i < lines.len() && names(#[trigger] lines[i], host))
}

/// What a list of seed lines gives: the targets that it names, and the lines
/// that name none.
#[derive(Debug)]
pub struct Seeds {
    /// The targets named, each once.
    pub targets: TargetSet,
    /// The lines that do not parse, in the order in which they stood.
    pub skipped: Vec<String>,
}

/// Reads the seed list, one host per line. Each line is parsed on its own as
/// a domain name. A line that does not parse is skipped and handed back, and
/// the other lines still count.
pub fn seed_targets(lines: &Vec<String>) -> (seeds: Seeds)
    ensures
        seeds.targets@ == seeded_hosts(texts(lines@)),
        texts(seeds.skipped@) == texts(lines@).filter(|line: Seq<char>| !names_a_host(line)),
{
    let mut targets = TargetSet::new();
    let mut skipped: Vec<String> = Vec::new();
    let ghost all = texts(lines@);
    let ghost unnamed = |line: Seq<char>| !names_a_host(line);
    let mut i: usize = 0;
    proof {
        reveal(Seq::filter);
        assert(seeded_hosts(all.take(0)) =~= Set::<HostView>::empty());
        assert(all.take(0).filter(unnamed) =~= texts(skipped@));
    }
    while i < lines.len()
        invariant
            i <= lines.len(),
            all == texts(lines@),
            unnamed == |line: Seq<char>| !names_a_host(line),
            targets@ == seeded_hosts(all.take(i as int)),
            texts(skipped@) == all.take(i as int).filter(unnamed),
        decreases lines.len() - i,
    {
        let ghost line = all[i as int];
        let ghost before = all.take(i as int);
        let ghost after = all.take(i + 1);
        proof {
            reveal(Seq::filter);
            assert(line == lines[i as int]@);
            assert(after.drop_last() == before);
            assert(after.last() == line);
            assert forall|host: HostView|
                seeded_hosts(after).contains(host) <==> seeded_hosts(before).contains(host)
                    || names(line, host) by {
                if seeded_hosts(before).contains(host) {
                    let k = choose|k: int| 0 <= k < before.len() && names(#[trigger] before[k], host);
                    assert(after[k] == before[k]);
                }
                if names(line, host) {
                    assert(after[i as int] == line);
                }
                if seeded_hosts(after).contains(host) {
                    let k = choose|k: int| 0 <= k < after.len() && names(#[trigger] after[k], host);
                    if k < i {
                        assert(before[k] == after[k]);
                    }
                }
            }
        }
        match DomainName::parse(lines[i].as_str()) {
            Ok(domain_name) => {
                let ghost host = HostView::Domain(domain_name@);
                let target = CrawlTarget::new(Host::Domain(domain_name));
                assert(seeded_hosts(after) =~= seeded_hosts(before).insert(host));
                targets.insert(target);
            },
            Err(_) => {
                let ghost kept = texts(skipped@);
                skipped.push(lines[i].clone());
                assert(texts(skipped@) =~= kept.push(line));
                assert(seeded_hosts(after) =~= seeded_hosts(before));
            },
        }
        i += 1;
    }
    assert(all.take(lines.len() as int) == all);
    Seeds { targets, skipped }
}

} // verus!
