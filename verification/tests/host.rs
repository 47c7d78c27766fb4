use vdovitsa::dns::domain_name::DomainName;
use vdovitsa::web::host::{Host, HostRelationship};
use vdovitsa::web::link::LinkHost;

fn domain(text: &str) -> Host {
    Host::Domain(DomainName::parse(text).unwrap())
}

fn relate(left: &Host, right: &Host) -> HostRelationship {
    Host::host_relationship(left, right)
}

#[test]
fn subdomains_of_one_name_are_related() {
    assert_eq!(relate(&domain("a.example.com"), &domain("b.example.com")), HostRelationship::Related);
    assert_eq!(relate(&domain("example.com"), &domain("blog.example.com")), HostRelationship::Related);
    assert_eq!(relate(&domain("a.b.example.com"), &domain("example.com")), HostRelationship::Related);
}

#[test]
fn a_name_is_the_same_as_itself() {
    assert_eq!(relate(&domain("example.com"), &domain("example.com")), HostRelationship::Same);
    assert_eq!(relate(&domain("a.example.com"), &domain("a.example.com.")), HostRelationship::Same);
}

#[test]
fn other_names_are_unrelated() {
    assert_eq!(relate(&domain("example.com"), &domain("example.org")), HostRelationship::Unrelated);
    assert_eq!(relate(&domain("example.com"), &domain("other.com")), HostRelationship::Unrelated);
    assert_eq!(relate(&domain("a.example.com"), &domain("a.example.org")), HostRelationship::Unrelated);
}

#[test]
fn addresses_are_the_same_or_unrelated() {
    assert_eq!(relate(&Host::Ipv4(0x0102_0304), &Host::Ipv4(0x0102_0304)), HostRelationship::Same);
    assert_eq!(relate(&Host::Ipv4(0x0102_0304), &Host::Ipv4(0x0102_0305)), HostRelationship::Unrelated);
    assert_eq!(relate(&Host::Ipv6(1), &Host::Ipv6(1)), HostRelationship::Same);
    assert_eq!(relate(&Host::Ipv6(1), &Host::Ipv6(2)), HostRelationship::Unrelated);
}

#[test]
fn mixed_kinds_are_unrelated() {
    assert_eq!(relate(&Host::Ipv4(0x0102_0304), &domain("example.com")), HostRelationship::Unrelated);
    assert_eq!(relate(&domain("example.com"), &Host::Ipv4(0x0102_0304)), HostRelationship::Unrelated);
    assert_eq!(relate(&domain("1.2.3.4"), &Host::Ipv4(0x0102_0304)), HostRelationship::Unrelated);
    assert_eq!(relate(&Host::Ipv4(1), &Host::Ipv6(1)), HostRelationship::Unrelated);
    assert_eq!(relate(&Host::Ipv6(1), &domain("example.com")), HostRelationship::Unrelated);
}

#[test]
fn relationship_reads_the_same_both_ways() {
    let hosts = [
        domain("example.com"),
        domain("a.example.com"),
        domain("b.a.example.com"),
        domain("example.org"),
        Host::Ipv4(7),
        Host::Ipv4(8),
        Host::Ipv6(7),
    ];
    for left in &hosts {
        for right in &hosts {
            assert_eq!(relate(left, right), relate(right, left));
            assert_eq!(relate(left, right) == HostRelationship::Same, left == right);
        }
    }
}

#[test]
fn host_text_goes_by_kind() {
    assert_eq!(domain("www.example.com.").to_string(), "www.example.com");
    assert_eq!(Host::Ipv4(0x0102_0304).to_string(), "1.2.3.4");
    assert_eq!(Host::Ipv6(1).to_string(), "::1");
}

#[test]
fn link_hosts_convert() {
    assert_eq!(Host::try_from(LinkHost::Domain("a.example.com".to_string())).unwrap(), domain("a.example.com"));
    assert_eq!(Host::try_from(LinkHost::Ipv4(5)).unwrap(), Host::Ipv4(5));
    assert_eq!(Host::try_from(LinkHost::Ipv6(5)).unwrap(), Host::Ipv6(5));
}

#[test]
fn link_host_of_one_label_does_not_convert() {
    let error = Host::try_from(LinkHost::Domain("localhost".to_string())).unwrap_err();
    assert_eq!(error.to_string(), "Failed to parse domain name!");
}

#[test]
fn hosts_compare_by_parts() {
    assert_eq!(domain("example.com"), domain("example.com"));
    assert_ne!(domain("example.com"), domain("www.example.com"));
    assert_ne!(Host::Ipv4(1), Host::Ipv6(1));
    assert_ne!(domain("1.2.3.4"), Host::Ipv4(0x0102_0304));
    assert_eq!(domain("a.example.com").clone(), domain("a.example.com"));
    assert_eq!(Host::Ipv6(9).clone(), Host::Ipv6(9));
}
