//! Web addresses: what the library reads from a parsed URL, the origin that
//! keys site metadata, and the normal form of a navigation target.

use vstd::prelude::*;
use crate::text::{concat, decimal, decimal_text, find, has_prefix, occurs_at, starts_with, trim, trimmed};

verus! {

/// The parts of a parsed absolute URL that the library's rules read.
#[derive(Debug, Clone)]
pub struct UrlParts {
    /// The URL written out in its normal form.
    pub href: String,
    /// The scheme, without the colon.
    pub scheme: String,
    /// The host as text, where the URL has one.
    pub host: Option<String>,
    /// The port: the one written in the URL or, failing that, the scheme's
    /// default where it is a known one.
    pub port: Option<u16>,
}

/// The mathematical value of a [`UrlParts`].
pub struct UrlPartsView {
    pub href: Seq<char>,
    pub scheme: Seq<char>,
    pub host: Option<Seq<char>>,
    pub port: Option<u16>,
}

/// The text of an optional string.
pub open spec fn opt_text(s: Option<String>) -> Option<Seq<char>> {
    match s {
        Some(t) => Some(t@),
        None => None,
    }
}

/// The model of optional URL parts.
pub open spec fn opt_parts(p: Option<UrlParts>) -> Option<UrlPartsView> {
    match p {
        Some(x) => Some(x@),
        None => None,
    }
}

impl View for UrlParts {
    type V = UrlPartsView;

    open spec fn view(&self) -> UrlPartsView {
        UrlPartsView {
            href: self.href@,
            scheme: self.scheme@,
            host: opt_text(self.host),
            port: self.port,
        }
    }
}

/// What `url::Url::parse` makes of a text: the parts of the URL it accepts,
/// or nothing where it rejects the text.
pub uninterp spec fn parsed_url(input: Seq<char>) -> Option<UrlPartsView>;

/// Calls `url::Url::parse` and copies out of the parsed URL its
/// serialization (`as_str`), `scheme`, `host_str` and
/// `port_or_known_default`. Nothing is proved of it: the contract only gives
/// the outcome the name `parsed_url`, a function of the text alone.
#[verifier::external_body]
pub(crate) fn parse_url(input: &str) -> (r: Option<UrlParts>)
    ensures
        match r {
            Some(p) => parsed_url(input@) == Some(p@),
            None => parsed_url(input@) is None,
        },
{
    match url::Url::parse(input) {
        Ok(u) => Some(
            UrlParts {
                href: u.as_str().to_string(),
                scheme: u.scheme().to_string(),
                host: u.host_str().map(|h| h.to_string()),
                port: u.port_or_known_default(),
            },
        ),
        Err(_) => None,
    }
}

/// What `url::Url::join` makes of a reference against a base: the resolved
/// URL written out, or nothing where the base or the reference is rejected.
pub uninterp spec fn resolved_url(base: Seq<char>, reference: Seq<char>) -> Option<Seq<char>>;

/// Calls `url::Url::join` on the base, which `url::Url::parse` turns into a
/// `Url` first, and writes the resolved URL out. Nothing is proved of it:
/// the contract only gives the outcome the name `resolved_url`, a function
/// of the two texts alone.
#[verifier::external_body]
pub(crate) fn join_url(base: &str, reference: &str) -> (r: Option<String>)
    ensures
        opt_text(r) == resolved_url(base@, reference@),
{
    match url::Url::parse(base) {
        Ok(b) => match b.join(reference) {
            Ok(u) => Some(String::from(u)),
            Err(_) => None,
        },
        Err(_) => None,
    }
}

/// The origin of a site written as text: scheme, host and, where there is
/// one, the port.
pub open spec fn origin_text(scheme: Seq<char>, host: Seq<char>, port: Option<u16>) -> Seq<char> {
    let base = scheme + "://"@ + host;
    match port {
        Some(p) => base + ":"@ + decimal_text(p as nat),
        None => base,
    }
}

/// The origin of parsed URL parts; a URL without a host has none.
pub open spec fn parts_origin(parts: UrlPartsView) -> Option<Seq<char>> {
    match parts.host {
        Some(h) => Some(origin_text(parts.scheme, h, parts.port)),
        None => None,
    }
}

/// The origin of a URL given as text; a text that is no URL has none.
pub open spec fn url_origin(url: Seq<char>) -> Option<Seq<char>> {
    match parsed_url(url) {
        Some(p) => parts_origin(p),
        None => None,
    }
}

/// Renders the origin of parsed URL parts.
pub fn origin_from_parts(parts: &UrlParts) -> (r: Option<String>)
    ensures
        opt_text(r) == parts_origin(parts@),
{
    match &parts.host {
        Some(h) => {
            let mut out = concat(parts.scheme.as_str(), "://");
            out.append(h.as_str());
            match parts.port {
                Some(p) => {
                    out.append(":");
                    let digits = decimal(p as u64);
                    out.append(digits.as_str());
                },
                None => {},
            }
            Some(out)
        },
        None => None,
    }
}

/// Derives the origin of a URL: its scheme, host and resolved port.
pub fn origin_of(url: &str) -> (r: Option<String>)
    ensures
        opt_text(r) == url_origin(url@),
{
    match parse_url(url) {
        Some(parts) => origin_from_parts(&parts),
        None => None,
    }
}

/// A navigation target that cannot be opened.
#[derive(Debug, Clone, Copy, PartialEq, Eq, Structural)]
pub enum UrlError {
    /// The target is empty or no well-formed address.
    Invalid,
}

impl UrlError {
    /// The error in words.
    pub fn message(&self) -> (r: String)
        ensures
            r@ == "invalid url"@,
    {
        "invalid url".to_string()
    }
}

/// The target already carries one of the schemes that are opened as they are.
pub open spec fn has_known_scheme(s: Seq<char>) -> bool {
    ||| has_prefix(s, "http://"@)
    ||| has_prefix(s, "https://"@)
    ||| has_prefix(s, "about:"@)
    ||| has_prefix(s, "data:"@)
    ||| has_prefix(s, "file:"@)
}

/// A character that ends the authority part of an address.
pub open spec fn is_delimiter(c: char) -> bool {
    c == '/' || c == '?' || c == '#'
}

/// The target spells out a scheme of its own: some text free of `/`, `?`
/// and `#`, followed by `://`.
pub open spec fn names_scheme(s: Seq<char>) -> bool {
    exists|i: int| #[trigger]
        occurs_at(s, "://"@, i) && forall|k: int| 0 <= k < i ==> !is_delimiter(#[trigger] s[k])
}

/// The normal form of a navigation target that has no white space around
/// it, given whether the target with `http://` in front parses as a URL.
///
/// An empty target is invalid. A target with a known scheme stands as it
/// is. Any other target is read as a host and gets `http://` in front: that
/// is invalid where the target names another scheme itself, or where the
/// result does not parse.
pub open spec fn normal_of_trimmed(s: Seq<char>, candidate_parses: bool) -> Result<
    Seq<char>,
    UrlError,
> {
    if s.len() == 0 {
        Err(UrlError::Invalid)
    } else if has_known_scheme(s) {
        Ok(s)
    } else if names_scheme(s) || !candidate_parses {
        Err(UrlError::Invalid)
    } else {
        Ok("http://"@ + s)
    }
}

/// The normal form of a navigation target, or the reason it has none: that
/// of the target without the white space around it.
pub open spec fn normal_target(raw: Seq<char>) -> Result<Seq<char>, UrlError> {
    normal_of_trimmed(trimmed(raw), parsed_url("http://"@ + trimmed(raw)) is Some)
}

fn known_scheme(s: &str) -> (b: bool)
    ensures
        b == has_known_scheme(s@),
{
    starts_with(s, "http://") || starts_with(s, "https://") || starts_with(s, "about:")
        || starts_with(s, "data:") || starts_with(s, "file:")
}

fn spells_scheme(s: &str) -> (b: bool)
    ensures
        b == names_scheme(s@),
{
    match find(s, "://") {
        Some(at) => {
            let mut k: usize = 0;
            while k < at
                invariant
                    occurs_at(s@, "://"@, at as int),
                    forall|j: int| 0 <= j < at ==> !occurs_at(s@, "://"@, j),
                    k <= at,
                    forall|j: int| 0 <= j < k ==> !is_delimiter(#[trigger] s@[j]),
                decreases at - k,
            {
                let c = s.get_char(k);
                if c == '/' || c == '?' || c == '#' {
                    proof {
                        assert forall|i: int| #[trigger]
                            occurs_at(s@, "://"@, i) implies !(forall|j: int|
                            0 <= j < i ==> !is_delimiter(#[trigger] s@[j])) by {
                            assert(i >= at);
                            assert(is_delimiter(s@[k as int]));
                        }
                    }
                    return false;
                }
                k = k + 1;
            }
            true
        },
        None => false,
    }
}

/// Normalizes a navigation target that has no white space around it, given
/// whether the target with `http://` in front parses as a URL.
pub fn normalize_trimmed(s: &str, candidate_parses: bool) -> (r: Result<String, UrlError>)
    ensures
        match r {
            Ok(t) => normal_of_trimmed(s@, candidate_parses) == Ok::<Seq<char>, UrlError>(t@),
            Err(e) => normal_of_trimmed(s@, candidate_parses) == Err::<Seq<char>, UrlError>(e),
        },
{
    if s.unicode_len() == 0 {
        Err(UrlError::Invalid)
    } else if known_scheme(s) {
        Ok(s.to_string())
    } else if spells_scheme(s) || !candidate_parses {
        Err(UrlError::Invalid)
    } else {
        Ok(concat("http://", s))
    }
}

/// Normalizes a navigation target.
pub fn normalize_url(raw: &str) -> (r: Result<String, UrlError>)
    ensures
        match r {
            Ok(t) => normal_target(raw@) == Ok::<Seq<char>, UrlError>(t@),
            Err(e) => normal_target(raw@) == Err::<Seq<char>, UrlError>(e),
        },
{
    let s = trim(raw);
    let candidate = concat("http://", s.as_str());
    let parses = parse_url(candidate.as_str()).is_some();
    normalize_trimmed(s.as_str(), parses)
}

} // verus!
