//! The IMAP session's configuration-side decisions.

use vstd::prelude::*;
use vstd::string::*;

use crate::config::ImapIdConfig;
use crate::config::server::{
    parse_server, server_url_input, str_views, url_parse, url_parts, ParsedUrl, ServerError,
};
use crate::text::str_eq;

verus! {

/// The schemes an IMAP `server` field may carry.
pub open spec fn imap_schemes() -> Seq<Seq<char>> {
    seq!["imap"@, "imaps"@, "unix"@]
}

/// Parses an IMAP server string into a URL.
///
/// Accepts an `imap://` or `imaps://` URL, a bare authority defaulting
/// to the secure `imaps://`, or a `unix://` socket path for a local
/// proxy such as sirup. Any other scheme is rejected.
pub fn parse_imap_server(server: &str) -> (r: Result<ParsedUrl, ServerError>)
    ensures
        ({
            let parsed = url_parse(server_url_input(server@, "imaps"@));
            match r {
                Ok(p) => parsed == Some(url_parts(p)) && imap_schemes().contains(p.scheme@),
                Err(ServerError::Parse(_)) => parsed is None,
                Err(ServerError::Scheme(scheme)) => parsed matches Some((parsed_scheme, _, _, _, _))
                    && scheme@ == parsed_scheme && !imap_schemes().contains(scheme@),
            }
        }),
{
    let allowed: [&str; 3] = ["imap", "imaps", "unix"];
    assert(str_views(allowed@) =~= imap_schemes());
    parse_server(server, "imaps", &allowed)
}

/// The canned value for a well-known auto-`ID` key, `None` for any
/// other key, which is then sent as `NIL`.
pub open spec fn canned_id_value(key: Seq<char>) -> Option<Seq<char>> {
    if key == "name"@ {
        Some("himalaya-tui"@)
    } else if key == "version"@ {
        Some("0.1.0"@)
    } else if key == "vendor"@ {
        Some("Pimalaya"@)
    } else if key == "support-url"@ {
        Some("https://github.com/pimalaya/himalaya-tui"@)
    } else {
        None
    }
}

/// Canned value for a well-known auto-`ID` key, `None` for any other
/// key, which is then sent as `NIL`.
pub fn canned_imap_id_value(key: &str) -> (value: Option<&'static str>)
    ensures
        match value {
            Some(v) => canned_id_value(key@) == Some(v@),
            None => canned_id_value(key@) is None,
        },
{
    if str_eq(key, "name") {
        Some("himalaya-tui")
    } else if str_eq(key, "version") {
        Some("0.1.0")
    } else if str_eq(key, "vendor") {
        Some("Pimalaya")
    } else if str_eq(key, "support-url") {
        Some("https://github.com/pimalaya/himalaya-tui")
    } else {
        None
    }
}

/// The value an `imap.id.fields.<key> = <use_canned>` entry sends:
/// the canned value when asked for and one is defined, `NIL` (`None`)
/// otherwise.
pub fn id_param_value(key: &str, use_canned: bool) -> (value: Option<&'static str>)
    ensures
        match value {
            Some(v) => use_canned && canned_id_value(key@) == Some(v@),
            None => !use_canned || canned_id_value(key@) is None,
        },
{
    if use_canned {
        canned_imap_id_value(key)
    } else {
        None
    }
}

/// What one `imap.id.fields` entry sends: its key, and its value, `NIL`
/// standing as `None`.
pub open spec fn id_param(entry: (String, bool)) -> (Seq<char>, Option<Seq<char>>) {
    (entry.0@, if entry.1 { canned_id_value(entry.0@) } else { None })
}

/// The views of resolved `ID` parameters.
pub open spec fn id_params_view(params: Seq<(String, Option<&'static str>)>) -> Seq<
    (Seq<char>, Option<Seq<char>>),
> {
    params.map_values(
        |p: (String, Option<&'static str>)|
            (
                p.0@,
                match p.1 {
                    Some(v) => Some(v@),
                    None => None,
                },
            ),
    )
}

/// Whether `text` is a valid IMAP string, as imap-types'
/// `IString::try_from` decides: a quoted string when every byte is a
/// text character, else a literal, which takes any byte but NUL and has
/// no length limit. So it is valid exactly when it holds no NUL
/// character. `NString::try_from` applies the same check, and the owned
/// and borrowed forms validate alike.
pub open spec fn imap_string_valid(text: Seq<char>) -> bool {
    !text.contains('\0')
}

/// `IString::try_from(text)`, reduced to whether it succeeds.
///
/// Claims that it succeeds exactly when the text holds no NUL
/// character.
#[verifier::external_body]
fn is_imap_string(text: &str) -> (b: bool)
    ensures
        b == imap_string_valid(text@),
{
    io_imap::types::core::IString::try_from(text).is_ok()
}

/// Why an `imap.id` block could not be sent.
#[derive(Clone, Debug, PartialEq, Eq)]
pub enum IdParamError {
    /// A key is no valid IMAP string.
    InvalidKey(String),
    /// The canned value of a key is no valid IMAP string.
    InvalidValue(String, String),
}

/// Whether an `imap.id.fields` entry can be sent: its key, and the
/// value it sends when not `NIL`, are valid IMAP strings.
pub open spec fn id_entry_sendable(entry: (String, bool)) -> bool {
    &&& imap_string_valid(entry.0@)
    &&& match id_param(entry).1 {
        Some(v) => imap_string_valid(v),
        None => true,
    }
}

/// Whether each `imap.id.fields` key occurs once, as in the table the
/// block is read from.
pub open spec fn distinct_keys(fields: Seq<(String, bool)>) -> bool {
    forall|i: int, j: int| 0 <= i < j < fields.len() ==> fields[i].0@ != fields[j].0@
}

/// The canned values are valid IMAP strings.
pub proof fn lemma_canned_values_are_imap_strings(key: Seq<char>)
    ensures
        canned_id_value(key) matches Some(v) ==> imap_string_valid(v),
{
    reveal_strlit("name");
    reveal_strlit("version");
    reveal_strlit("vendor");
    reveal_strlit("support-url");
    reveal_strlit("himalaya-tui");
    reveal_strlit("0.1.0");
    reveal_strlit("Pimalaya");
    reveal_strlit("https://github.com/pimalaya/himalaya-tui");
    if let Some(v) = canned_id_value(key) {
        assert(!v.contains('\0'));
    }
}

/// Resolves an `imap.id` block into the `ID` parameters it sends.
///
/// `None` when `auto = false`, otherwise one parameter per configured
/// key, in order: the canned value when the user set `true` and the key
/// is well-known, `NIL` otherwise. The first entry, in order, whose key
/// or canned value is no valid IMAP string is an error.
pub fn resolve_auto_id_params(config: &ImapIdConfig) -> (params: Result<
    Option<Vec<(String, Option<&'static str>)>>,
    IdParamError,
>)
    requires
        distinct_keys(config.fields@),
    ensures
        config.auto && (forall|i: int| 0 <= i < config.fields@.len() ==> imap_string_valid(
            #[trigger] config.fields@[i].0@,
        )) ==> params is Ok && params->Ok_0 is Some,
        match params {
            Ok(None) => !config.auto,
            Ok(Some(p)) => {
                &&& config.auto
                &&& forall|i: int| 0 <= i < config.fields@.len() ==> id_entry_sendable(#[trigger] config.fields@[i])
                &&& id_params_view(p@) =~= config.fields@.map_values(|e: (String, bool)| id_param(e))
            },
            Err(IdParamError::InvalidKey(key)) => config.auto && exists|i: int|
                {
                    &&& 0 <= i < config.fields@.len()
                    &&& forall|j: int| 0 <= j < i ==> id_entry_sendable(#[trigger] config.fields@[j])
                    &&& key@ == config.fields@[i].0@
                    &&& !imap_string_valid(key@)
                },
            Err(IdParamError::InvalidValue(key, value)) => config.auto && exists|i: int|
                {
                    &&& 0 <= i < config.fields@.len()
                    &&& forall|j: int| 0 <= j < i ==> id_entry_sendable(#[trigger] config.fields@[j])
                    &&& key@ == config.fields@[i].0@
                    &&& imap_string_valid(key@)
                    &&& id_param(config.fields@[i]).1 == Some(value@)
                    &&& !imap_string_valid(value@)
                },
        },
{
    if !config.auto {
        return Ok(None);
    }
    let mut params: Vec<(String, Option<&'static str>)> = Vec::new();
    let mut i: usize = 0;
    while i < config.fields.len()
        invariant
            config.auto,
            i <= config.fields@.len(),
            forall|j: int| 0 <= j < i ==> id_entry_sendable(#[trigger] config.fields@[j]),
            id_params_view(params@) =~= config.fields@.take(i as int).map_values(
                |e: (String, bool)| id_param(e),
            ),
        decreases config.fields@.len() - i,
    {
        let key = config.fields[i].0.clone();
        proof {
            lemma_canned_values_are_imap_strings(key@);
        }
        if !is_imap_string(key.as_str()) {
            return Err(IdParamError::InvalidKey(key));
        }
        let value = id_param_value(key.as_str(), config.fields[i].1);
        match value {
            Some(v) => {
                if !is_imap_string(v) {
                    return Err(IdParamError::InvalidValue(key, v.to_owned()));
                }
            },
            None => {},
        }
        let ghost before = params@;
        params.push((key, value));
        proof {
            let entry = config.fields@[i as int];
            assert(id_entry_sendable(entry));
            assert(config.fields@.take(i + 1) =~= config.fields@.take(i as int).push(entry));
            assert(id_params_view(params@) =~= id_params_view(before).push(id_param(entry)));
        }
        i = i + 1;
    }
    assert(config.fields@.take(i as int) =~= config.fields@);
    Ok(Some(params))
}

/// The port io-imap connects to when a URL names none: 993 for `imaps`
/// (compared without regard to ASCII case), 143 for any other scheme.
pub open spec fn spec_imap_default_port(scheme: Seq<char>) -> u16 {
    if eq_ignore_ascii_case(scheme, "imaps"@) {
        993
    } else {
        143
    }
}

/// Whether two texts are equal once ASCII letters are lowercased.
pub open spec fn eq_ignore_ascii_case(a: Seq<char>, b: Seq<char>) -> bool {
    a.len() == b.len() && forall|i: int| 0 <= i < a.len() ==> ascii_lower(#[trigger] a[i]) == ascii_lower(b[i])
}

/// `c` with an ASCII uppercase letter lowercased.
pub open spec fn ascii_lower(c: char) -> char {
    if 'A' <= c && c <= 'Z' {
        ((c as u32) + 32) as char
    } else {
        c
    }
}

/// io-imap's `default_port(scheme)`.
///
/// Claims the port its source gives: 993 when the scheme is `imaps`
/// regardless of ASCII case, 143 otherwise.
#[verifier::external_body]
fn imap_default_port(scheme: &str) -> (port: u16)
    ensures
        port == spec_imap_default_port(scheme@),
{
    io_imap::client::default_port(scheme)
}

/// Where SASL authenticates against, as a server URL gives it: its
/// host, and its port or else the scheme's default. `None` when the URL
/// has no host, which is an error.
pub fn sasl_endpoint(server: &ParsedUrl) -> (endpoint: Option<(String, u16)>)
    ensures
        match endpoint {
            None => server.host is None,
            Some((host, port)) => server.host matches Some(h) && host@ == h@ && port == match server.port {
                Some(p) => p,
                None => spec_imap_default_port(server.scheme@),
            },
        },
{
    match &server.host {
        None => None,
        Some(host) => {
            let port = match server.port {
                Some(p) => p,
                None => imap_default_port(server.scheme.as_str()),
            };
            Some((host.clone(), port))
        },
    }
}

/// Whether a session to an IMAP server of this scheme authenticates
/// with the configured SASL block: never over `unix://`, whose socket
/// proxy (such as sirup) presents an already authenticated session.
pub fn negotiates_sasl(scheme: &str, has_sasl: bool) -> (b: bool)
    ensures
        b == (has_sasl && scheme@ != "unix"@),
{
    has_sasl && !str_eq(scheme, "unix")
}

} // verus!
