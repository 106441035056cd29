//! What is read off a URL: whether a download URL belongs to a supported
//! site, and the normal form of a browser origin.
use vstd::prelude::*;
use vstd::string::*;

use crate::text::{
    ascii_lowercase, chars_end_with, chars_equal, chars_of, decimal_digits, ends_with, push_decimal,
    str_eq, string_of, to_ascii_lowercase,
};

verus! {

/// The parts of a parsed URL that the service looks at.
#[derive(Debug)]
pub struct UrlParts {
    pub scheme: String,
    pub host: Option<String>,
    pub port: Option<u16>,
    pub path: String,
    pub query: Option<String>,
    pub fragment: Option<String>,
}

/// `UrlParts` as plain values.
pub struct UrlPartsView {
    pub scheme: Seq<char>,
    pub host: Option<Seq<char>>,
    pub port: Option<u16>,
    pub path: Seq<char>,
    pub query: Option<Seq<char>>,
    pub fragment: Option<Seq<char>>,
}

impl View for UrlParts {
    type V = UrlPartsView;

    open spec fn view(&self) -> UrlPartsView {
        UrlPartsView {
            scheme: self.scheme@,
            host: crate::text::opt_view(self.host),
            port: self.port,
            path: self.path@,
            query: crate::text::opt_view(self.query),
            fragment: crate::text::opt_view(self.fragment),
        }
    }
}

pub open spec fn opt_parts_view(parts: Option<UrlParts>) -> Option<UrlPartsView> {
    match parts {
        Some(p) => Some(p@),
        None => None,
    }
}

/// The parts of `input` read as a URL, or `None` when it is none.
pub uninterp spec fn parsed_url(input: Seq<char>) -> Option<UrlPartsView>;

/// `url::Url::parse`, read through `scheme`, `host_str`, `port`, `path`,
/// `query` and `fragment` of `Url`: whether the text is a URL, and its parts,
/// depend on the text alone. The rules of parsing are not restated here.
#[verifier::external_body]
pub(crate) fn parse_url(input: &str) -> (parts: Option<UrlParts>)
    ensures
        opt_parts_view(parts) == parsed_url(input@),
{
    let url = url::Url::parse(input).ok()?;
    Some(
        UrlParts {
            scheme: url.scheme().to_owned(),
            host: url.host_str().map(str::to_owned),
            port: url.port(),
            path: url.path().to_owned(),
            query: url.query().map(str::to_owned),
            fragment: url.fragment().map(str::to_owned),
        },
    )
}

/// `host` is `domain` or a subdomain of it.
pub open spec fn host_matches(host: Seq<char>, domain: Seq<char>) -> bool {
    host == domain || ends_with(host, seq!['.'] + domain)
}

pub fn host_matches_domain(host: &Vec<char>, domain: &str) -> (b: bool)
    ensures
        b == host_matches(host@, domain@),
{
    let domain_chars = chars_of(domain);
    if chars_equal(host, &domain_chars) {
        return true;
    }
    let mut suffix: Vec<char> = Vec::new();
    suffix.push('.');
    let mut i: usize = 0;
    while i < domain_chars.len()
        invariant
            i <= domain_chars.len(),
            suffix@ == seq!['.'] + domain_chars@.take(i as int),
        decreases domain_chars.len() - i,
    {
        suffix.push(domain_chars[i]);
        i += 1;
        assert(suffix@ =~= seq!['.'] + domain_chars@.take(i as int));
    }
    assert(domain_chars@.take(domain_chars.len() as int) =~= domain_chars@);
    chars_end_with(host, &suffix)
}

/// The sites whose URLs are taken.
pub open spec fn supported_domains() -> Seq<Seq<char>> {
    seq![
        "youtube.com"@,
        "youtu.be"@,
        "x.com"@,
        "twitter.com"@,
        "facebook.com"@,
        "fb.watch"@,
        "instagram.com"@,
        "bsky.app"@,
        "tiktok.com"@,
        "vm.tiktok.com"@,
        "vt.tiktok.com"@,
        "m.youtube.com"@,
        "music.youtube.com"@,
        "m.facebook.com"@,
    ]
}

pub fn supported_domain_list() -> (domains: Vec<&'static str>)
    ensures
        domains@.map_values(|d: &'static str| d@) == supported_domains(),
{
    let mut domains: Vec<&'static str> = Vec::new();
    domains.push("youtube.com");
    domains.push("youtu.be");
    domains.push("x.com");
    domains.push("twitter.com");
    domains.push("facebook.com");
    domains.push("fb.watch");
    domains.push("instagram.com");
    domains.push("bsky.app");
    domains.push("tiktok.com");
    domains.push("vm.tiktok.com");
    domains.push("vt.tiktok.com");
    domains.push("m.youtube.com");
    domains.push("music.youtube.com");
    domains.push("m.facebook.com");
    assert(domains@.map_values(|d: &'static str| d@) =~= supported_domains());
    domains
}

/// A URL is supported when its scheme is `http` or `https` and its host, in
/// lower case, is one of the supported sites or a subdomain of one.
pub open spec fn is_supported(parts: Option<UrlPartsView>) -> bool {
    match parts {
        None => false,
        Some(p) => (p.scheme == "http"@ || p.scheme == "https"@) && p.host is Some && exists|
            i: int,
        |
            0 <= i < supported_domains().len() && host_matches(
                ascii_lowercase(p.host->0),
                #[trigger] supported_domains()[i],
            ),
    }
}

/// Whether the parts of a URL make it a supported one.
pub fn url_is_supported(parts: &Option<UrlParts>) -> (b: bool)
    ensures
        b == is_supported(opt_parts_view(*parts)),
{
    let p = match parts {
        Some(p) => p,
        None => {
            return false;
        },
    };
    if !(str_eq(p.scheme.as_str(), "http") || str_eq(p.scheme.as_str(), "https")) {
        return false;
    }
    let host = match &p.host {
        Some(h) => to_ascii_lowercase(&chars_of(h.as_str())),
        None => {
            return false;
        },
    };
    let domains = supported_domain_list();
    let ghost names = domains@.map_values(|d: &'static str| d@);
    let mut i: usize = 0;
    while i < domains.len()
        invariant
            i <= domains.len(),
            names == domains@.map_values(|d: &'static str| d@),
            names == supported_domains(),
            parts is Some,
            parts->0.scheme@ == "http"@ || parts->0.scheme@ == "https"@,
            parts->0.host is Some,
            host@ == ascii_lowercase(parts->0.host->0@),
            forall|j: int| 0 <= j < i ==> !host_matches(host@, #[trigger] supported_domains()[j]),
        decreases domains.len() - i,
    {
        assert(names[i as int] == domains@[i as int]@);
        if host_matches_domain(&host, domains[i]) {
            assert(host_matches(host@, supported_domains()[i as int]));
            return true;
        }
        i += 1;
    }
    false
}

pub fn is_supported_download_url(input: &str) -> (b: bool)
    ensures
        b == is_supported(parsed_url(input@)),
{
    let parts = parse_url(input);
    url_is_supported(&parts)
}

/// The host of a URL, in lower case, is `domain` or a subdomain of it.
pub open spec fn is_on_domain(parts: Option<UrlPartsView>, domain: Seq<char>) -> bool {
    match parts {
        None => false,
        Some(p) => p.host is Some && host_matches(ascii_lowercase(p.host->0), domain),
    }
}

/// Whether the parts of a URL place it on `domain`.
pub fn url_is_on_domain(parts: &Option<UrlParts>, domain: &str) -> (b: bool)
    ensures
        b == is_on_domain(opt_parts_view(*parts), domain@),
{
    match parts {
        None => false,
        Some(p) => match &p.host {
            None => false,
            Some(h) => {
                let host = to_ascii_lowercase(&chars_of(h.as_str()));
                host_matches_domain(&host, domain)
            },
        },
    }
}

pub fn is_domain_match(input: &str, domain: &str) -> (b: bool)
    ensures
        b == is_on_domain(parsed_url(input@), domain@),
{
    let parts = parse_url(input);
    url_is_on_domain(&parts, domain)
}

/// The port that a scheme implies, for the schemes an origin may have.
pub open spec fn default_port(scheme: Seq<char>) -> Option<u16> {
    if scheme == "http"@ {
        Some(80u16)
    } else if scheme == "https"@ {
        Some(443u16)
    } else {
        None
    }
}

/// The normal form of an origin: scheme, `://`, the host in lower case, and
/// the port if it is not the one the scheme implies. Only `http` and `https`
/// URLs with a host, the path `/` and neither query nor fragment are origins.
pub open spec fn normal_origin(parts: Option<UrlPartsView>) -> Option<Seq<char>> {
    match parts {
        None => None,
        Some(p) => if p.host is None || default_port(p.scheme) is None || p.path != "/"@
            || p.query is Some || p.fragment is Some {
            None
        } else {
            let base = p.scheme + "://"@ + ascii_lowercase(p.host->0);
            if p.port is Some && p.port != default_port(p.scheme) {
                Some(base + ":"@ + decimal_digits(p.port->0 as nat))
            } else {
                Some(base)
            }
        },
    }
}

/// The normal form of the origin that the parts of a URL describe.
pub fn origin_of_parts(parts: &Option<UrlParts>) -> (origin: Option<String>)
    ensures
        crate::text::opt_view(origin) == normal_origin(opt_parts_view(*parts)),
{
    proof {
        reveal_strlit("http");
        reveal_strlit("https");
        assert("http"@.len() != "https"@.len());
    }
    let p = match parts {
        Some(p) => p,
        None => {
            return None;
        },
    };
    let host = match &p.host {
        Some(h) => string_of(&to_ascii_lowercase(&chars_of(h.as_str()))),
        None => {
            return None;
        },
    };
    let implied: u16 = if str_eq(p.scheme.as_str(), "http") {
        80
    } else if str_eq(p.scheme.as_str(), "https") {
        443
    } else {
        return None;
    };
    if !str_eq(p.path.as_str(), "/") || p.query.is_some() || p.fragment.is_some() {
        return None;
    }
    let mut origin = p.scheme.clone();
    origin.append("://");
    origin.append(host.as_str());
    match p.port {
        Some(port) => {
            if port != implied {
                origin.append(":");
                push_decimal(&mut origin, port as u64);
            }
        },
        None => {},
    }
    Some(origin)
}

pub fn normalize_origin(value: &str) -> (origin: Option<String>)
    ensures
        crate::text::opt_view(origin) == normal_origin(parsed_url(value@)),
{
    let parts = parse_url(value);
    origin_of_parts(&parts)
}

} // verus!
