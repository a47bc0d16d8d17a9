//! Account discovery from a single prompt: what the typed input is
//! (an email address, a server URL, a folder path) and the names
//! derived from it.

use vstd::prelude::*;
use vstd::string::*;

use crate::config::server::{parse_url, url_parse};
use crate::shared::client::Backends;
use crate::text::{
    before_first, contains, find_char, has_infix, has_prefix, last_pos, lemma_first_pos, lemma_last_pos,
    rfind_char, starts_with, str_eq, trim, trim_str,
};

verus! {

/// The documented sample configuration.
///
/// Shown in the welcome banner, and pointed at when discovery finds
/// nothing to configure automatically.
pub const CONFIG_SAMPLE_URL: &'static str =
    "https://github.com/pimalaya/himalaya-tui/blob/master/config.sample.toml";

/// Whether the input names a filesystem path rather than a network
/// endpoint: a `file://` URL, an absolute, home-relative or explicitly
/// relative path.
pub open spec fn names_path(input: Seq<char>) -> bool {
    ||| has_prefix(input, "file://"@)
    ||| (input.len() > 0 && (input[0] == '/' || input[0] == '~'))
    ||| has_prefix(input, "./"@)
    ||| has_prefix(input, "../"@)
}

/// Whether the input reads as an email address: not a path, not a URL
/// (whose `@` would be a credential), and a non-empty local part and
/// domain around its last `@`.
pub open spec fn names_email(input: Seq<char>) -> bool {
    &&& !names_path(input)
    &&& !has_infix(input, "://"@)
    &&& 0 < last_pos(input, '@') < input.len() - 1
}

/// The first dot-separated label of a host or domain.
pub open spec fn spec_first_label(host: Seq<char>) -> Seq<char> {
    before_first(host, '.')
}

/// Whether the input names a filesystem path, not a network endpoint.
pub fn is_path(input: &str) -> (b: bool)
    ensures
        b == names_path(input@),
{
    if starts_with(input, "file://") {
        return true;
    }
    let n = input.unicode_len();
    if n > 0 {
        let c = input.get_char(0);
        if c == '/' || c == '~' {
            return true;
        }
    }
    starts_with(input, "./") || starts_with(input, "../")
}

/// The first dot-separated label of a host or domain.
pub fn first_label(host: &str) -> (label: String)
    ensures
        label@ == spec_first_label(host@),
{
    let end = find_char(host, '.');
    proof {
        lemma_first_pos(host@, '.');
    }
    host.substring_char(0, end).to_owned()
}

/// The input read back as an email address, or `None` when it is not
/// one.
///
/// A server URL may carry a userinfo part and so hold an `@` of its
/// own, which is a credential and not an address, hence the check for a
/// scheme before the one for a local part.
pub fn prompted_email(input: &str) -> (r: Option<&str>)
    ensures
        r is Some <==> names_email(input@),
        r matches Some(email) ==> email@ == input@,
{
    if is_path(input) || contains(input, "://") {
        return None;
    }
    let n = input.unicode_len();
    match rfind_char(input, '@') {
        None => None,
        Some(at) => {
            proof {
                lemma_last_pos(input@, '@');
            }
            if at == 0 || at + 1 == n {
                None
            } else {
                Some(input)
            }
        },
    }
}

/// `p` without a leading `file://`.
pub open spec fn strip_file_scheme(p: Seq<char>) -> Seq<char> {
    if has_prefix(p, "file://"@) {
        p.subrange("file://"@.len() as int, p.len() as int)
    } else {
        p
    }
}

/// What `Path::file_name` returns for the path `p`, read as UTF-8: its
/// final component, `None` when it ends in `..` or has none. The
/// component rules are the platform's path grammar, and the result
/// depends on `p` alone.
pub uninterp spec fn path_file_name(p: Seq<char>) -> Option<Seq<char>>;

/// `Path::file_name` on `path`, read back as a string.
///
/// Claims that the result is the one `path_file_name` names for
/// `path`; nothing more of the path grammar is stated.
#[verifier::external_body]
fn file_name(path: &str) -> (r: Option<String>)
    ensures
        r.deep_view() == path_file_name(path@),
{
    std::path::Path::new(path).file_name().and_then(|name| name.to_str()).map(
        |name| name.to_string(),
    )
}

/// The default account name proposed from the input shape: the folder
/// name of a local path (`personal` when it has none), the first label
/// of a URL's host, else the first label of the domain after the last
/// `@`, else the first label of the input itself.
pub open spec fn spec_default_account_name(input: Seq<char>) -> Seq<char> {
    if names_path(input) {
        match path_file_name(strip_file_scheme(input)) {
            Some(name) => name,
            None => "personal"@,
        }
    } else {
        match url_parse(input) {
            Some((_, Some(host), _, _, _)) => spec_first_label(host),
            _ => if last_pos(input, '@') >= 0 {
                spec_first_label(input.subrange(last_pos(input, '@') + 1, input.len() as int))
            } else {
                spec_first_label(input)
            },
        }
    }
}

/// The default account name proposed from the input shape.
///
/// The first label of its domain, or the folder name of a local path.
pub fn default_account_name(input: &str) -> (name: String)
    ensures
        name@ == spec_default_account_name(input@),
{
    if is_path(input) {
        let n = input.unicode_len();
        let raw = if starts_with(input, "file://") {
            let skip = "file://".unicode_len();
            input.substring_char(skip, n)
        } else {
            input
        };
        return match file_name(raw) {
            Some(name) => name,
            None => "personal".to_owned(),
        };
    }
    if let Ok(parsed) = parse_url(input) {
        if let Some(host) = &parsed.host {
            return first_label(host.as_str());
        }
    }
    let n = input.unicode_len();
    match rfind_char(input, '@') {
        Some(at) => {
            proof {
                lemma_last_pos(input@, '@');
            }
            first_label(input.substring_char(at + 1, n))
        },
        None => first_label(input),
    }
}

/// What a discovered service is, as far as choosing among them goes.
#[derive(Clone, Copy, Debug, PartialEq, Eq, Structural)]
pub enum DiscoveredKind {
    /// An IMAP server with its SMTP submission server; `implicit_tls`
    /// when the IMAP side speaks TLS from the first byte.
    ImapSmtp { implicit_tls: bool },
    /// A JMAP session endpoint.
    Jmap,
    /// The Gmail API.
    Gmail,
    /// The Microsoft Graph API.
    Msgraph,
}

/// Whether the build has a backend for the service: IMAP with SMTP
/// when it carries both, JMAP when it carries it; a Google or Microsoft
/// account is reached over IMAP and SMTP, the proprietary APIs being the
/// CLI's.
pub open spec fn is_supported(kind: DiscoveredKind, built: Backends) -> bool {
    match kind {
        DiscoveredKind::ImapSmtp { .. } => built.imap && built.smtp,
        DiscoveredKind::Jmap => built.jmap,
        _ => false,
    }
}

/// Whether an entry's service is supported by the build.
pub open spec fn supported_entry<T>(built: Backends) -> spec_fn((DiscoveredKind, T)) -> bool {
    |entry: (DiscoveredKind, T)| is_supported(entry.0, built)
}

/// What a server URL's scheme keeps of the discovered services: `imap`
/// and `imaps` keep IMAP + SMTP (in a build carrying both), `imaps`
/// requiring implicit TLS, and the HTTP-family schemes keep JMAP.
/// `None` for any other scheme, which the build cannot serve.
pub open spec fn scheme_keeps(scheme: Seq<char>, kind: DiscoveredKind, built: Backends) -> Option<bool> {
    if (scheme == "imap"@ || scheme == "imaps"@) && built.imap && built.smtp {
        Some(
            match kind {
                DiscoveredKind::ImapSmtp { implicit_tls } => scheme != "imaps"@ || implicit_tls,
                _ => false,
            },
        )
    } else if scheme == "jmap"@ || scheme == "jmaps"@ || scheme == "http"@ || scheme == "https"@ {
        Some(kind is Jmap)
    } else {
        None
    }
}

/// Whether an entry is kept for a scheme the discovery was narrowed to.
pub open spec fn kept_for_scheme<T>(scheme: Seq<char>, built: Backends) -> spec_fn((DiscoveredKind, T)) -> bool {
    |entry: (DiscoveredKind, T)| scheme_keeps(scheme, entry.0, built) == Some(true)
}

/// The entries a backend selection keeps: IMAP + SMTP when `keep_imap`
/// (those with implicit TLS alone when `imap_tls_only`), JMAP when
/// `keep_jmap`, nothing else.
pub open spec fn kind_filter<T>(keep_imap: bool, imap_tls_only: bool, keep_jmap: bool) -> spec_fn(
    (DiscoveredKind, T),
) -> bool {
    |entry: (DiscoveredKind, T)|
        match entry.0 {
            DiscoveredKind::ImapSmtp { implicit_tls } => keep_imap && (!imap_tls_only
                || implicit_tls),
            DiscoveredKind::Jmap => keep_jmap,
            _ => false,
        }
}

/// Each HTTP-family scheme (`jmap`, `jmaps`, `http`, `https`) is
/// accepted, whatever the build, and keeps exactly the JMAP entries.
pub proof fn http_schemes_keep_exactly_jmap<T>(scheme: Seq<char>, built: Backends, entry: (DiscoveredKind, T))
    requires
        scheme == "jmap"@ || scheme == "jmaps"@ || scheme == "http"@ || scheme == "https"@,
    ensures
        scheme_keeps(scheme, entry.0, built) == Some(entry.0 is Jmap),
        kept_for_scheme::<T>(scheme, built)(entry) == (entry.0 is Jmap),
{
    reveal_strlit("jmap");
    reveal_strlit("jmaps");
    reveal_strlit("http");
    reveal_strlit("https");
    reveal_strlit("imap");
    reveal_strlit("imaps");
    assert(scheme[0] != 'i');
    assert("imap"@[0] == 'i' && "imaps"@[0] == 'i');
    assert(scheme != "imap"@ && scheme != "imaps"@);
}

/// In a build carrying IMAP and SMTP, `imap` keeps exactly the IMAP +
/// SMTP entries and `imaps` exactly those with implicit TLS.
pub proof fn imap_schemes_keep_imap_smtp<T>(built: Backends, entry: (DiscoveredKind, T))
    requires
        built.imap && built.smtp,
    ensures
        kept_for_scheme::<T>("imap"@, built)(entry) == (entry.0 is ImapSmtp),
        kept_for_scheme::<T>("imaps"@, built)(entry) == (entry.0 matches DiscoveredKind::ImapSmtp {
            implicit_tls,
        } && implicit_tls),
{
    reveal_strlit("imap");
    reveal_strlit("imaps");
    reveal_strlit("jmap");
    reveal_strlit("jmaps");
    reveal_strlit("http");
    reveal_strlit("https");
    assert("imap"@.len() != "imaps"@.len());
    assert("imap"@ != "imaps"@);
}

/// Any scheme other than these is refused, as are `imap` and `imaps` in
/// a build without IMAP and SMTP.
pub proof fn other_schemes_are_refused(scheme: Seq<char>, built: Backends, kind: DiscoveredKind)
    requires
        scheme != "jmap"@ && scheme != "jmaps"@ && scheme != "http"@ && scheme != "https"@,
        !((scheme == "imap"@ || scheme == "imaps"@) && built.imap && built.smtp),
    ensures
        scheme_keeps(scheme, kind, built) is None,
{
}

/// Keeps, in order, the entries `kind_filter` selects.
fn retain_by<T>(found: &mut Vec<(DiscoveredKind, T)>, keep_imap: bool, imap_tls_only: bool, keep_jmap: bool)
    ensures
        final(found)@ == old(found)@.filter(kind_filter(keep_imap, imap_tls_only, keep_jmap)),
{
    let ghost pred = kind_filter::<T>(keep_imap, imap_tls_only, keep_jmap);
    let ghost initial = found@;
    assert(initial.len() == found.len());
    let mut kept: Vec<(DiscoveredKind, T)> = Vec::new();
    let mut i: usize = 0;
    proof {
        reveal(Seq::filter);
        assert(initial.take(0) =~= Seq::<(DiscoveredKind, T)>::empty());
        assert(initial.skip(0) =~= initial);
    }
    while found.len() > 0
        invariant
            i + found@.len() == initial.len(),
            initial.len() <= usize::MAX,
            found@ == initial.skip(i as int),
            pred == kind_filter::<T>(keep_imap, imap_tls_only, keep_jmap),
            kept@ == initial.take(i as int).filter(pred),
        decreases found.len(),
    {
        let entry = found.remove(0);
        let keep = match entry.0 {
            DiscoveredKind::ImapSmtp { implicit_tls } => keep_imap && (!imap_tls_only
                || implicit_tls),
            DiscoveredKind::Jmap => keep_jmap,
            _ => false,
        };
        let ghost before = kept@;
        proof {
            assert(entry == initial[i as int]);
            assert(pred(entry) == keep);
        }
        if keep {
            kept.push(entry);
        }
        proof {
            reveal(Seq::filter);
            let taken = initial.take(i + 1);
            assert(taken.drop_last() =~= initial.take(i as int));
            assert(taken.last() == initial[i as int]);
            if keep {
                assert(kept@ =~= before.push(initial[i as int]));
            }
            assert(found@ =~= initial.skip(i + 1));
        }
        i = i + 1;
    }
    assert(initial.take(i as int) =~= initial);
    *found = kept;
}

/// Drops, in order, the discovered entries the build has no backend
/// for.
pub fn retain_supported<T>(found: &mut Vec<(DiscoveredKind, T)>, built: Backends)
    ensures
        final(found)@ == old(found)@.filter(supported_entry(built)),
{
    retain_by(found, built.imap && built.smtp, false, built.jmap);
    assert(kind_filter::<T>(built.imap && built.smtp, false, built.jmap) =~= supported_entry::<T>(
        built,
    ));
}

/// Keeps only the discovered entries `scheme` asked for, failing, with
/// the entries left alone, on a scheme the build has no backend for.
pub fn retain_scheme<T>(found: &mut Vec<(DiscoveredKind, T)>, scheme: &str, built: Backends) -> (r:
    Result<(), ()>)
    ensures
        match r {
            Ok(()) => (exists|k: DiscoveredKind| scheme_keeps(scheme@, k, built) is Some)
                && final(found)@ == old(found)@.filter(kept_for_scheme(scheme@, built)),
            Err(()) => (forall|k: DiscoveredKind| scheme_keeps(scheme@, k, built) is None)
                && final(found)@ == old(found)@,
        },
{
    if (str_eq(scheme, "imap") || str_eq(scheme, "imaps")) && built.imap && built.smtp {
        let tls_only = str_eq(scheme, "imaps");
        retain_by(found, true, tls_only, false);
        assert(scheme_keeps(scheme@, DiscoveredKind::Jmap, built) is Some);
        assert(kind_filter::<T>(true, tls_only, false) =~= kept_for_scheme::<T>(scheme@, built));
        Ok(())
    } else if str_eq(scheme, "jmap") || str_eq(scheme, "jmaps") || str_eq(scheme, "http") || str_eq(
        scheme,
        "https",
    ) {
        retain_by(found, false, false, true);
        assert(scheme_keeps(scheme@, DiscoveredKind::Jmap, built) is Some);
        assert(kind_filter::<T>(false, false, true) =~= kept_for_scheme::<T>(scheme@, built));
        Ok(())
    } else {
        Err(())
    }
}

/// The prompt's answer (or the seed standing in for it) once trimmed,
/// `None` when nothing is left: an email address, a server URL or a
/// folder path is needed.
pub fn discovery_input(answer: &str) -> (input: Option<&str>)
    ensures
        match input {
            Some(i) => i@ == trim(answer@) && i@.len() > 0,
            None => trim(answer@).len() == 0,
        },
{
    let input = trim_str(answer);
    if input.unicode_len() == 0 {
        None
    } else {
        Some(input)
    }
}

/// What discovery searches from an input, and the scheme narrowing its
/// results: a URL searches from `@` and its host under its own scheme,
/// an email address from itself, a bare domain from `@` and the domain.
/// `None` when the URL does not parse.
pub open spec fn spec_discovery_query(input: Seq<char>) -> Option<(Seq<char>, Option<Seq<char>>)> {
    if has_infix(input, "://"@) {
        match url_parse(input) {
            Some((scheme, host, _, _, _)) => Some(
                (
                    "@"@ + match host {
                        Some(h) => h,
                        None => Seq::empty(),
                    },
                    Some(scheme),
                ),
            ),
            None => None,
        }
    } else if input.contains('@') {
        Some((input, None))
    } else {
        Some(("@"@ + input, None))
    }
}

/// The discovery query and narrowing scheme of an input, or the URL
/// parser's error for a URL it rejects.
pub fn discovery_query(input: &str) -> (r: Result<(String, Option<String>), url::ParseError>)
    ensures
        match r {
            Ok((email, scheme)) => spec_discovery_query(input@) == Some((email@, scheme.deep_view())),
            Err(_) => spec_discovery_query(input@) is None,
        },
{
    if contains(input, "://") {
        return match parse_url(input) {
            Err(err) => Err(err),
            Ok(parsed) => {
                let mut email = "@".to_owned();
                match &parsed.host {
                    Some(host) => email.append(host.as_str()),
                    None => {},
                }
                proof {
                    reveal_strlit("@");
                }
                Ok((email, Some(parsed.scheme)))
            },
        };
    }
    let at = find_char(input, '@');
    proof {
        lemma_first_pos(input@, '@');
    }
    if at < input.unicode_len() {
        assert(input@[at as int] == '@');
        Ok((input.to_owned(), None))
    } else {
        let mut email = "@".to_owned();
        email.append(input);
        proof {
            reveal_strlit("@");
        }
        Ok((email, None))
    }
}

} // verus!
