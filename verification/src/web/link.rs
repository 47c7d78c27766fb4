//! Absolute links taken apart: scheme, host and normalized text.

use crate::text::optional_text;
use vstd::prelude::*;

verus! {

/// The host of an absolute link, as plain values.
pub enum LinkHostView {
    /// A domain name, as text.
    Domain(Seq<char>),
    /// An IPv4 address, as a number.
    Ipv4(u32),
    /// An IPv6 address, as a number.
    Ipv6(u128),
}

/// The host of an absolute link: a domain name as text, or an address as
/// the number it stands for.
#[derive(Debug, Clone, PartialEq, Eq)]
pub enum LinkHost {
    /// A domain name, as the link spells it after normalization.
    Domain(String),
    /// An IPv4 address, most significant octet first.
    Ipv4(u32),
    /// An IPv6 address, most significant segment first.
    Ipv6(u128),
}

impl View for LinkHost {
    type V = LinkHostView;

    open spec fn view(&self) -> LinkHostView {
        match self {
            LinkHost::Domain(name) => LinkHostView::Domain(name@),
            LinkHost::Ipv4(bits) => LinkHostView::Ipv4(*bits),
            LinkHost::Ipv6(bits) => LinkHostView::Ipv6(*bits),
        }
    }
}

/// The parts of an absolute link, each as plain values.
pub struct ParsedLinkView {
    /// The scheme, without the colon.
    pub scheme: Seq<char>,
    /// The host, where the link has one.
    pub host: Option<LinkHostView>,
    /// The host as the normalized link spells it, where the link has one.
    pub host_text: Option<Seq<char>>,
    /// The whole link in its normalized spelling.
    pub text: Seq<char>,
}

/// An absolute link after parsing.
#[derive(Debug, Clone, PartialEq, Eq)]
pub struct ParsedLink {
    /// The scheme, without the colon.
    pub scheme: String,
    /// The host, where the link has one.
    pub host: Option<LinkHost>,
    /// The host as the normalized link spells it, where the link has one.
    pub host_text: Option<String>,
    /// The whole link in its normalized spelling.
    pub text: String,
}

impl View for ParsedLink {
    type V = ParsedLinkView;

    open spec fn view(&self) -> ParsedLinkView {
        ParsedLinkView {
            scheme: self.scheme@,
            host: match self.host {
                Some(host) => Some(host@),
                None => None,
            },
            host_text: optional_text(self.host_text),
            text: self.text@,
        }
    }
}

/// The parts of a parsed link as plain values, where there is one.
pub open spec fn parts_of(parsed: Option<ParsedLink>) -> Option<ParsedLinkView> {
    match parsed {
        Some(link) => Some(link@),
        None => None,
    }
}

/// What `url::Url::parse` makes of a text: nothing where it fails, else the
/// scheme, the host, the host as spelled and the whole serialization of the
/// URL that it returns.
pub uninterp spec fn parsed_link(link: Seq<char>) -> Option<ParsedLinkView>;

/// Parses an absolute link with `url::Url::parse`, and reads the result with
/// `Url::scheme`, `Url::host`, `Url::host_str` and the conversion of the
/// `Url` into its serialization. Nothing is claimed of what these return but
/// that the text alone decides it: the parts are `parsed_link` of the text.
#[verifier::external_body]
pub(crate) fn parse_url(link: &str) -> (parsed: Option<ParsedLink>)
    ensures
        parts_of(parsed) == parsed_link(link@),
{
    let url = url::Url::parse(link).ok()?;
    let host = match url.host() {
        Some(url::Host::Domain(name)) => Some(LinkHost::Domain(name.to_owned())),
        Some(url::Host::Ipv4(address)) => Some(LinkHost::Ipv4(address.to_bits())),
        Some(url::Host::Ipv6(address)) => Some(LinkHost::Ipv6(address.to_bits())),
        None => None,
    };
    let host_text = url.host_str().map(str::to_owned);
    Some(ParsedLink { scheme: url.scheme().to_owned(), host, host_text, text: url.into() })
}

} // verus!
