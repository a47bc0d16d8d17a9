//! The JMAP session's configuration-side decisions.

use vstd::prelude::*;
use vstd::string::*;
use vstd::utf8::encode_utf8;

use base64::Engine;

use crate::config::server::{
    parse_server, server_url_input, str_views, url_parse, url_parts, ParsedUrl, ServerError,
};
use crate::text::str_eq;

verus! {

/// The schemes a JMAP `server` field may carry.
pub open spec fn jmap_schemes() -> Seq<Seq<char>> {
    seq!["http"@, "https"@]
}

/// Parses the JMAP `server` field into a URL.
///
/// Accepts a full http or https URL, a bare `host:port` or a bare
/// `host`, the last two defaulting to https. Any other scheme is
/// rejected.
pub fn parse_jmap_server(server: &str) -> (r: Result<ParsedUrl, ServerError>)
    ensures
        ({
            let parsed = url_parse(server_url_input(server@, "https"@));
            match r {
                Ok(p) => parsed == Some(url_parts(p)) && jmap_schemes().contains(p.scheme@),
                Err(ServerError::Parse(_)) => parsed is None,
                Err(ServerError::Scheme(scheme)) => parsed matches Some((parsed_scheme, _, _, _, _))
                    && scheme@ == parsed_scheme && !jmap_schemes().contains(scheme@),
            }
        }),
{
    let allowed: [&str; 2] = ["http", "https"];
    assert(str_views(allowed@) =~= jmap_schemes());
    parse_server(server, "https", &allowed)
}

/// An `(id, name)` mailbox index, by value.
pub open spec fn index_view(index: Seq<(String, String)>) -> Seq<(Seq<char>, Seq<char>)> {
    index.map_values(|entry: (String, String)| (entry.0@, entry.1@))
}

/// Whether `m` is one of the index's ids.
pub open spec fn is_index_id(index: Seq<(Seq<char>, Seq<char>)>, m: Seq<char>) -> bool {
    exists|i: int| 0 <= i < index.len() && #[trigger] index[i].0 == m
}

/// The id of the first mailbox named `m`, if any.
pub open spec fn id_named(index: Seq<(Seq<char>, Seq<char>)>, m: Seq<char>) -> Option<Seq<char>>
    decreases index.len(),
{
    if index.len() == 0 {
        None
    } else if index[0].1 == m {
        Some(index[0].0)
    } else {
        id_named(index.drop_first(), m)
    }
}

/// What a mailbox argument resolves to against the index: itself when
/// it already is an id, else the id of the first mailbox it names, else
/// itself unchanged, so the server surfaces the error.
pub open spec fn resolved_mailbox(index: Seq<(Seq<char>, Seq<char>)>, m: Seq<char>) -> Seq<char> {
    if is_index_id(index, m) {
        m
    } else {
        match id_named(index, m) {
            Some(id) => id,
            None => m,
        }
    }
}

/// A name lookup lands on an id of the index.
pub proof fn lemma_id_named_is_id(index: Seq<(Seq<char>, Seq<char>)>, m: Seq<char>)
    ensures
        id_named(index, m) matches Some(id) ==> is_index_id(index, id),
    decreases index.len(),
{
    if index.len() > 0 && index[0].1 != m {
        lemma_id_named_is_id(index.drop_first(), m);
        if let Some(id) = id_named(index, m) {
            let i = choose|i: int| 0 <= i < index.drop_first().len() && #[trigger] index.drop_first()[i].0 == id;
            assert(index[i + 1].0 == id);
        }
    } else if index.len() > 0 {
        assert(index[0].0 == index[0].0);
    }
}

/// Resolution is idempotent: a resolved mailbox resolves to itself.
pub proof fn lemma_resolution_is_idempotent(index: Seq<(Seq<char>, Seq<char>)>, m: Seq<char>)
    ensures
        resolved_mailbox(index, resolved_mailbox(index, m)) == resolved_mailbox(index, m),
{
    lemma_id_named_is_id(index, m);
}

/// The id of the first mailbox named `mailbox`, scanning from `start`.
fn find_named(index: &Vec<(String, String)>, mailbox: &str) -> (r: Option<usize>)
    ensures
        match r {
            Some(i) => i < index.len() && id_named(index_view(index@), mailbox@) == Some(
                index@[i as int].0@,
            ),
            None => id_named(index_view(index@), mailbox@) is None,
        },
{
    let ghost iv = index_view(index@);
    let mut i: usize = 0;
    assert(iv.subrange(0, iv.len() as int) =~= iv);
    while i < index.len()
        invariant
            iv == index_view(index@),
            i <= index.len(),
            id_named(iv, mailbox@) == id_named(iv.subrange(i as int, iv.len() as int), mailbox@),
        decreases index.len() - i,
    {
        let ghost rest = iv.subrange(i as int, iv.len() as int);
        if str_eq(index[i].1.as_str(), mailbox) {
            assert(rest[0] == iv[i as int]);
            return Some(i);
        }
        assert(rest.drop_first() =~= iv.subrange(i + 1, iv.len() as int));
        i = i + 1;
    }
    None
}

/// Maps a human mailbox name to its opaque JMAP id against the index.
///
/// A known id passes through verbatim, mirroring IMAP where the name is
/// the id, and an unknown value is handed back as-is so the server
/// surfaces the error.
pub fn resolve_mailbox_in(index: &Vec<(String, String)>, mailbox: &str) -> (id: String)
    ensures
        id@ == resolved_mailbox(index_view(index@), mailbox@),
{
    let ghost iv = index_view(index@);
    let mut i: usize = 0;
    while i < index.len()
        invariant
            iv == index_view(index@),
            i <= index.len(),
            forall|t: int| 0 <= t < i ==> #[trigger] iv[t].0 != mailbox@,
        decreases index.len() - i,
    {
        if str_eq(index[i].0.as_str(), mailbox) {
            assert(iv[i as int].0 == mailbox@);
            return mailbox.to_owned();
        }
        i = i + 1;
    }
    assert(iv.subrange(0, iv.len() as int) =~= iv);
    match find_named(index, mailbox) {
        Some(k) => index[k].0.clone(),
        None => mailbox.to_owned(),
    }
}

/// The index a `Mailbox/get` listing makes, given as each mailbox's id
/// and name: the mailboxes carrying an id, in order, a missing name
/// standing as the empty one.
pub open spec fn spec_mailbox_index(listing: Seq<(Option<String>, Option<String>)>) -> Seq<(Seq<char>, Seq<char>)>
    decreases listing.len(),
{
    if listing.len() == 0 {
        Seq::empty()
    } else {
        let rest = spec_mailbox_index(listing.drop_last());
        match listing.last() {
            (Some(id), name) => rest.push(
                (
                    id@,
                    match name {
                        Some(n) => n@,
                        None => Seq::empty(),
                    },
                ),
            ),
            (None, _) => rest,
        }
    }
}

/// Builds the `(id, name)` index from a `Mailbox/get` listing.
pub fn mailbox_index(listing: Vec<(Option<String>, Option<String>)>) -> (index: Vec<(String, String)>)
    ensures
        index_view(index@) =~= spec_mailbox_index(listing@),
{
    let ghost initial = listing@;
    let mut rest = listing;
    let mut index: Vec<(String, String)> = Vec::new();
    let mut i: usize = 0;
    assert(initial.len() == rest.len());
    assert(initial.skip(0) =~= initial);
    while rest.len() > 0
        invariant
            i + rest@.len() == initial.len(),
            initial.len() <= usize::MAX,
            rest@ == initial.skip(i as int),
            index_view(index@) =~= spec_mailbox_index(initial.take(i as int)),
        decreases rest.len(),
    {
        let entry = rest.remove(0);
        proof {
            assert(entry == initial[i as int]);
            assert(initial.take(i + 1).drop_last() =~= initial.take(i as int));
            assert(rest@ =~= initial.skip(i + 1));
        }
        let ghost before = index@;
        match entry {
            (Some(id), name) => {
                let name = match name {
                    Some(n) => n,
                    None => String::new(),
                };
                let ghost pair = (id@, name@);
                index.push((id, name));
                assert(index_view(index@) =~= index_view(before).push(pair));
            },
            (None, _) => {},
        }
        i = i + 1;
    }
    assert(initial.take(i as int) =~= initial);
    index
}

/// Whether the session's mailbox index still has to be fetched: it is
/// fetched once, on the first resolution, then kept for the client's
/// lifetime.
pub fn needs_index(cache: &Option<Vec<(String, String)>>) -> (b: bool)
    ensures
        b == cache is None,
{
    cache.is_none()
}

/// The index a cache holds, empty when it holds none.
pub open spec fn cached_view(cache: Option<Vec<(String, String)>>) -> Seq<(Seq<char>, Seq<char>)> {
    match cache {
        Some(index) => index_view(index@),
        None => Seq::empty(),
    }
}

/// Maps a human mailbox name to its opaque JMAP id against the cached
/// index, filling the cache from `fetched` (the `Mailbox/get` listing,
/// by id and name) when it is empty; a filled cache is kept as it is.
pub fn resolve_mailbox_id(
    cache: &mut Option<Vec<(String, String)>>,
    fetched: Option<Vec<(Option<String>, Option<String>)>>,
    mailbox: &str,
) -> (id: String)
    requires
        *old(cache) is Some || fetched is Some,
    ensures
        *old(cache) is Some ==> *final(cache) == *old(cache),
        *old(cache) is None ==> (*final(cache) matches Some(index) && index_view(index@)
            =~= spec_mailbox_index(fetched->0@)),
        id@ == resolved_mailbox(cached_view(*final(cache)), mailbox@),
{
    if cache.is_none() {
        match fetched {
            Some(listing) => {
                *cache = Some(mailbox_index(listing));
            },
            None => {},
        }
    }
    match cache {
        Some(index) => resolve_mailbox_in(index, mailbox),
        None => mailbox.to_owned(),
    }
}

/// The RFC 4648 standard alphabet digit for a six-bit value.
pub open spec fn base64_digit(v: int) -> char {
    if v < 26 {
        (('A' as int) + v) as char
    } else if v < 52 {
        (('a' as int) + v - 26) as char
    } else if v < 62 {
        (('0' as int) + v - 52) as char
    } else if v == 62 {
        '+'
    } else {
        '/'
    }
}

/// RFC 4648 base64 of `b` in the standard alphabet, padded with `=`.
pub open spec fn base64_of(b: Seq<u8>) -> Seq<char>
    decreases b.len(),
{
    if b.len() == 0 {
        Seq::empty()
    } else if b.len() == 1 {
        let x = b[0] as int;
        seq![base64_digit(x / 4), base64_digit((x % 4) * 16), '=', '=']
    } else if b.len() == 2 {
        let (x, y) = (b[0] as int, b[1] as int);
        seq![base64_digit(x / 4), base64_digit((x % 4) * 16 + y / 16), base64_digit((y % 16) * 4), '=']
    } else {
        let (x, y, z) = (b[0] as int, b[1] as int, b[2] as int);
        seq![
            base64_digit(x / 4),
            base64_digit((x % 4) * 16 + y / 16),
            base64_digit((y % 16) * 4 + z / 64),
            base64_digit(z % 64),
        ] + base64_of(b.subrange(3, b.len() as int))
    }
}

/// Whether the encoder can size its output for `len` input bytes: it
/// panics on the overflow of `4 * ceil(len / 3)`.
pub open spec fn base64_fits(len: int) -> bool {
    (len + 2) / 3 * 4 <= usize::MAX
}

/// `base64::prelude::BASE64_STANDARD.encode(bytes)`: the padded
/// standard-alphabet encoding, as the crate documents it.
#[verifier::external_body]
fn encode_base64(bytes: &[u8]) -> (s: String)
    requires
        base64_fits(bytes@.len() as int),
    ensures
        s@ == base64_of(bytes@),
{
    base64::prelude::BASE64_STANDARD.encode(bytes)
}

/// How the JMAP session authenticates, its secrets already read.
pub enum JmapCredentials {
    /// A verbatim `Authorization` header value.
    Header(String),
    /// An RFC 6750 bearer token.
    Bearer(String),
    /// RFC 7617 basic credentials.
    Basic { username: String, password: String },
}

/// The `user:password` text basic authentication encodes.
pub open spec fn basic_text(username: Seq<char>, password: Seq<char>) -> Seq<char> {
    username + ":"@ + password
}

/// The `Authorization` header value for `auth`.
pub open spec fn authorization_value(auth: JmapCredentials) -> Seq<char> {
    match auth {
        JmapCredentials::Header(value) => value@,
        JmapCredentials::Bearer(token) => "Bearer "@ + token@,
        JmapCredentials::Basic { username, password } => "Basic "@ + base64_of(
            encode_utf8(basic_text(username@, password@)),
        ),
    }
}

/// Whether the credentials are small enough to encode.
pub open spec fn credentials_fit(auth: JmapCredentials) -> bool {
    match auth {
        JmapCredentials::Basic { username, password } => base64_fits(
            encode_utf8(basic_text(username@, password@)).len() as int,
        ),
        _ => true,
    }
}

/// Formats the credentials into an HTTP `Authorization` value.
pub fn jmap_http_auth(auth: JmapCredentials) -> (value: String)
    requires
        credentials_fit(auth),
    ensures
        value@ == authorization_value(auth),
{
    match auth {
        JmapCredentials::Header(value) => value,
        JmapCredentials::Bearer(token) => {
            let mut value = "Bearer ".to_owned();
            value.append(token.as_str());
            value
        },
        JmapCredentials::Basic { username, password } => {
            let mut creds = username;
            creds.append(":");
            creds.append(password.as_str());
            let encoded = encode_base64(creds.as_str().as_bytes());
            let mut value = "Basic ".to_owned();
            value.append(encoded.as_str());
            value
        },
    }
}

} // verus!
