//! Network hosts and how two of them relate.

use crate::dns::domain_name::{parse_spec, DomainName, DomainNameParseError, DomainNameView};
use crate::web::ip_text::{ipv4_text, ipv4_to_string, ipv6_text, ipv6_to_string};
use crate::web::link::{LinkHost, LinkHostView};
use vstd::prelude::*;
use vstd::std_specs::cmp::PartialEqSpecImpl;

verus! {

/// How two hosts relate.
#[derive(Debug, Clone, Copy, PartialEq, Eq, Structural)]
pub enum HostRelationship {
    /// The hosts are the same host.
    Same,
    /// The hosts share registrable name and top-level domain.
    Related,
    /// The hosts have nothing in common.
    Unrelated,
}

/// A host by its parts.
pub enum HostView {
    /// A domain name.
    Domain(DomainNameView),
    /// An IPv4 address, as a number.
    Ipv4(u32),
    /// An IPv6 address, as a number.
    Ipv6(u128),
}

impl HostView {
    /// How `self` relates to `other`. Two domain names are the same host
    /// where all their parts agree, related where registrable name and
    /// top-level domain agree, unrelated else. Two addresses of one family
    /// are the same host where they are the same number, unrelated else.
    /// A domain name and an address, or addresses of two families, are
    /// unrelated.
    pub open spec fn relationship(self, other: HostView) -> HostRelationship {
        match (self, other) {
            (HostView::Domain(mine), HostView::Domain(theirs)) => {
                if mine == theirs {
                    HostRelationship::Same
                } else if mine.domain == theirs.domain && mine.tld == theirs.tld {
                    HostRelationship::Related
                } else {
                    HostRelationship::Unrelated
                }
            },
            (HostView::Ipv4(mine), HostView::Ipv4(theirs)) => {
                if mine == theirs {
                    HostRelationship::Same
                } else {
                    HostRelationship::Unrelated
                }
            },
            (HostView::Ipv6(mine), HostView::Ipv6(theirs)) => {
                if mine == theirs {
                    HostRelationship::Same
                } else {
                    HostRelationship::Unrelated
                }
            },
            _ => HostRelationship::Unrelated,
        }
    }

    /// The host as text: a domain name as it is written, an address in the
    /// usual form of its family.
    pub open spec fn text(self) -> Seq<char> {
        match self {
            HostView::Domain(name) => name.text(),
            HostView::Ipv4(bits) => ipv4_text(bits),
            HostView::Ipv6(bits) => ipv6_text(bits),
        }
    }

    /// The host that a link's host stands for: an address as it is, a domain
    /// name parsed. Nothing where the name does not parse.
    pub open spec fn from_link_host(host: LinkHostView) -> Option<HostView> {
        match host {
            LinkHostView::Domain(name) => match parse_spec(name) {
                Some(parsed) => Some(HostView::Domain(parsed)),
                None => None,
            },
            LinkHostView::Ipv4(bits) => Some(HostView::Ipv4(bits)),
            LinkHostView::Ipv6(bits) => Some(HostView::Ipv6(bits)),
        }
    }
}

/// A network host: a domain name or an IP address.
#[derive(Debug, Hash)]
pub enum Host {
    /// A domain name.
    Domain(DomainName),
    /// An IPv4 address, most significant octet first.
    Ipv4(u32),
    /// An IPv6 address, most significant segment first.
    Ipv6(u128),
}

impl View for Host {
    type V = HostView;

    open spec fn view(&self) -> HostView {
        match self {
            Host::Domain(name) => HostView::Domain(name@),
            Host::Ipv4(bits) => HostView::Ipv4(*bits),
            Host::Ipv6(bits) => HostView::Ipv6(*bits),
        }
    }
}

impl Host {
    /// Classifies how two hosts relate. No name is resolved: a domain name
    /// and the address it points to are unrelated.
    pub fn host_relationship(host1: &Self, host2: &Self) -> (relationship: HostRelationship)
        ensures
            relationship == host1@.relationship(host2@),
    {
        match (host1, host2) {
            (Host::Domain(domain_name1), Host::Domain(domain_name2)) => {
                if domain_name1 == domain_name2 {
                    HostRelationship::Same
                } else if domain_name1.shares_registrable_name(domain_name2) {
                    HostRelationship::Related
                } else {
                    HostRelationship::Unrelated
                }
            },
            (Host::Ipv4(ip1), Host::Ipv4(ip2)) => {
                if *ip1 == *ip2 {
                    HostRelationship::Same
                } else {
                    HostRelationship::Unrelated
                }
            },
            (Host::Ipv6(ip1), Host::Ipv6(ip2)) => {
                if *ip1 == *ip2 {
                    HostRelationship::Same
                } else {
                    HostRelationship::Unrelated
                }
            },
            _ => HostRelationship::Unrelated,
        }
    }

    /// The host as text.
    pub fn to_string(&self) -> (text: String)
        ensures
            text@ == self@.text(),
    {
        match self {
            Host::Domain(domain) => domain.to_string(),
            Host::Ipv4(ip) => ipv4_to_string(*ip),
            Host::Ipv6(ip) => ipv6_to_string(*ip),
        }
    }

    /// The host that the host of a link stands for. A domain name is parsed,
    /// and the error of that is the error here.
    pub fn try_from(value: LinkHost) -> (converted: Result<Host, DomainNameParseError>)
        ensures
            (match converted {
                Ok(host) => HostView::from_link_host(value@) == Some(host@),
                Err(_) => HostView::from_link_host(value@) is None,
            }),
    {
        match value {
            LinkHost::Domain(domain_name) => {
                match DomainName::parse(domain_name.as_str()) {
                    Ok(domain_name) => Ok(Host::Domain(domain_name)),
                    Err(error) => Err(error),
                }
            },
            LinkHost::Ipv4(ip) => Ok(Host::Ipv4(ip)),
            LinkHost::Ipv6(ip) => Ok(Host::Ipv6(ip)),
        }
    }
}

impl PartialEq for Host {
    /// Two hosts are equal where they are of one kind and their parts agree.
    fn eq(&self, other: &Self) -> (same: bool) {
        match (self, other) {
            (Host::Domain(mine), Host::Domain(theirs)) => mine == theirs,
            (Host::Ipv4(mine), Host::Ipv4(theirs)) => *mine == *theirs,
            (Host::Ipv6(mine), Host::Ipv6(theirs)) => *mine == *theirs,
            _ => false,
        }
    }
}

impl PartialEqSpecImpl for Host {
    open spec fn obeys_eq_spec() -> bool {
        true
    }

    open spec fn eq_spec(&self, other: &Self) -> bool {
        self@ == other@
    }
}

impl Eq for Host {

}

impl Clone for Host {
    fn clone(&self) -> (copy: Self)
        ensures
            copy@ == self@,
    {
        match self {
            Host::Domain(name) => Host::Domain(name.clone()),
            Host::Ipv4(bits) => Host::Ipv4(*bits),
            Host::Ipv6(bits) => Host::Ipv6(*bits),
        }
    }
}

/// Each host is the same as itself, and two hosts relate one way as they do
/// the other.
pub proof fn relationship_is_symmetric(left: HostView, right: HostView)
    ensures
        left.relationship(left) == HostRelationship::Same,
        left.relationship(right) == right.relationship(left),
{
}

/// Two hosts are the same host exactly where they are equal.
pub proof fn same_means_equal(left: HostView, right: HostView)
    ensures
        left.relationship(right) == HostRelationship::Same <==> left == right,
{
}

/// Where one domain name is a subdomain of the other, their hosts are
/// related.
pub proof fn subdomain_is_related(lower: DomainNameView, upper: DomainNameView)
    requires
        lower.is_subdomain_of(upper),
    ensures
        HostView::Domain(lower).relationship(HostView::Domain(upper)) == HostRelationship::Related,
{
}

} // verus!
