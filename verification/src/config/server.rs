//! Reading a `server` field: a full `scheme://` URL or a bare
//! authority, its scheme checked against what the protocol speaks.

use vstd::prelude::*;
use vstd::string::*;

use crate::text::{contains, has_infix, str_eq};

verus! {

#[verifier::external_type_specification]
#[verifier::external_body]
pub struct ExUrlParseError(url::ParseError);

/// What `url::Url::parse` makes of `input`: `None` when it rejects it,
/// otherwise the parsed URL's scheme, host, whether that host is a
/// domain (rather than an IP address), port and serialization, as
/// `Url::scheme`, `Url::host_str`, `Url::host`, `Url::port` and
/// `Url::as_str` report them. The URL standard's parser takes pages to
/// state, and its result depends on `input` alone.
pub uninterp spec fn url_parse(input: Seq<char>) -> Option<
    (Seq<char>, Option<Seq<char>>, bool, Option<u16>, Seq<char>),
>;

/// The parts the library reads of a parsed URL: its scheme, host,
/// whether the host is a domain, port (`None` for a scheme's default
/// one) and its whole serialization, which the URL parses back from.
pub struct ParsedUrl {
    pub scheme: String,
    pub host: Option<String>,
    pub host_is_domain: bool,
    pub port: Option<u16>,
    pub serialized: String,
}

/// The parts of a parsed URL, as `url_parse` names them.
pub open spec fn url_parts(p: ParsedUrl) -> (
    Seq<char>,
    Option<Seq<char>>,
    bool,
    Option<u16>,
    Seq<char>,
) {
    (p.scheme@, p.host.deep_view(), p.host_is_domain, p.port, p.serialized@)
}

/// `url::Url::parse(input)`, the scheme, host, host kind, port and
/// serialization of a successful parse read off with `Url::scheme`,
/// `Url::host_str`, `Url::host`, `Url::port` and `Url::as_str`.
///
/// Claims that the call succeeds exactly when `url_parse` names a
/// result, and that these parts are the ones it names. Nothing is
/// claimed of which error a rejection carries.
#[verifier::external_body]
pub(crate) fn parse_url(input: &str) -> (r: Result<ParsedUrl, url::ParseError>)
    ensures
        match r {
            Ok(parsed) => url_parse(input@) == Some(url_parts(parsed)),
            Err(_) => url_parse(input@) is None,
        },
{
    url::Url::parse(input).map(
        |url| ParsedUrl {
            scheme: url.scheme().to_string(),
            host: url.host_str().map(|host| host.to_string()),
            host_is_domain: matches!(url.host(), Some(url::Host::Domain(_))),
            port: url.port(),
            serialized: url.as_str().to_string(),
        },
    )
}

/// The port the URL standard knows for a scheme: 80 for `http` and
/// `ws`, 443 for `https` and `wss`, 21 for `ftp`, none for any other.
pub open spec fn spec_known_default_port(scheme: Seq<char>) -> Option<u16> {
    if scheme == "http"@ || scheme == "ws"@ {
        Some(80)
    } else if scheme == "https"@ || scheme == "wss"@ {
        Some(443)
    } else if scheme == "ftp"@ {
        Some(21)
    } else {
        None
    }
}

/// The port the URL standard knows for a scheme.
pub fn known_default_port(scheme: &str) -> (port: Option<u16>)
    ensures
        port == spec_known_default_port(scheme@),
{
    if str_eq(scheme, "http") || str_eq(scheme, "ws") {
        Some(80)
    } else if str_eq(scheme, "https") || str_eq(scheme, "wss") {
        Some(443)
    } else if str_eq(scheme, "ftp") {
        Some(21)
    } else {
        None
    }
}

/// A URL's port, or the one its scheme is known to default to, as
/// `Url::port_or_known_default` reports it.
pub open spec fn port_or_known_default(p: ParsedUrl) -> Option<u16> {
    match p.port {
        Some(port) => Some(port),
        None => spec_known_default_port(p.scheme@),
    }
}

/// Whether two URLs share their host (same kind, same text) and their
/// effective port, so that one live connection can carry requests to
/// both.
pub fn same_authority(a: &ParsedUrl, b: &ParsedUrl) -> (same: bool)
    ensures
        same == (a.host_is_domain == b.host_is_domain && a.host.deep_view() == b.host.deep_view()
            && port_or_known_default(*a) == port_or_known_default(*b)),
{
    let hosts_match = a.host_is_domain == b.host_is_domain && match (&a.host, &b.host) {
        (None, None) => true,
        (Some(x), Some(y)) => str_eq(x.as_str(), y.as_str()),
        _ => false,
    };
    let port_a = match a.port {
        Some(port) => Some(port),
        None => known_default_port(a.scheme.as_str()),
    };
    let port_b = match b.port {
        Some(port) => Some(port),
        None => known_default_port(b.scheme.as_str()),
    };
    hosts_match && port_a == port_b
}

/// Why a `server` field was refused.
pub enum ServerError {
    /// The URL parser rejected it.
    Parse(url::ParseError),
    /// It parsed under a scheme the protocol does not speak.
    Scheme(String),
}

/// The text handed to the URL parser for a `server` field: the field
/// itself when it carries `://`, otherwise the field as an authority
/// under `default_scheme`.
pub open spec fn server_url_input(server: Seq<char>, default_scheme: Seq<char>) -> Seq<char> {
    if has_infix(server, "://"@) {
        server
    } else {
        default_scheme + "://"@ + server
    }
}

/// The views of a slice of string slices.
pub open spec fn str_views(v: Seq<&str>) -> Seq<Seq<char>> {
    v.map_values(|s: &str| s@)
}

/// Whether `scheme` is one of `allowed`.
pub fn scheme_allowed(scheme: &str, allowed: &[&str]) -> (b: bool)
    ensures
        b == str_views(allowed@).contains(scheme@),
{
    let mut i: usize = 0;
    while i < allowed.len()
        invariant
            i <= allowed@.len(),
            forall|t: int| 0 <= t < i ==> str_views(allowed@)[t] != scheme@,
        decreases allowed@.len() - i,
    {
        if str_eq(allowed[i], scheme) {
            assert(str_views(allowed@)[i as int] == scheme@);
            return true;
        }
        i = i + 1;
    }
    false
}

/// Parses a `server` field into a URL, its scheme checked against
/// `allowed`.
///
/// A bare `host:port` is detected by the absence of `://`, since the
/// URL parser would otherwise read `mail.example.com:993` as the scheme
/// `mail.example.com`. Such a string becomes an authority under
/// `default_scheme`.
pub fn parse_server(server: &str, default_scheme: &str, allowed: &[&str]) -> (r: Result<
    ParsedUrl,
    ServerError,
>)
    ensures
        ({
            let parsed = url_parse(server_url_input(server@, default_scheme@));
            match r {
                Ok(p) => parsed == Some(url_parts(p)) && str_views(allowed@).contains(p.scheme@),
                Err(ServerError::Parse(_)) => parsed is None,
                Err(ServerError::Scheme(scheme)) => parsed matches Some((parsed_scheme, _, _, _, _))
                    && scheme@ == parsed_scheme && !str_views(allowed@).contains(scheme@),
            }
        }),
{
    let parsed = if contains(server, "://") {
        parse_url(server)
    } else {
        let mut input = default_scheme.to_owned();
        input.append("://");
        input.append(server);
        parse_url(input.as_str())
    };
    match parsed {
        Err(err) => Err(ServerError::Parse(err)),
        Ok(parsed) => {
            if scheme_allowed(parsed.scheme.as_str(), allowed) {
                Ok(parsed)
            } else {
                Err(ServerError::Scheme(parsed.scheme))
            }
        },
    }
}

} // verus!
