//! The configuration schema's plain parts, the layout of a rendered
//! account, and the reading of `server` fields.
//!
//! One file backs this binary and the himalaya CLI, so every block
//! modelled here accepts what the CLI writes there.

use std::collections::HashMap;
use std::path::PathBuf;

use vstd::prelude::*;
use vstd::relations::sorted_by;
use vstd::string::*;

use crate::collation::{sorted_names, text_order, texts};
use crate::text::str_eq;
use crate::tui::theme::ThemeColor;

pub mod layout;
pub mod server;

verus! {

#[verifier::external_type_specification]
#[verifier::external_body]
pub struct ExPathBuf(PathBuf);

/// `PathBuf::clone`, which the derived `Clone` of the path-holding
/// blocks calls. Nothing is claimed of the copy.
pub assume_specification[ <PathBuf as Clone>::clone ](path: &PathBuf) -> PathBuf;

/// The presets shipped with the binary.
#[derive(Clone, Copy, Debug, PartialEq, Eq, Structural)]
pub enum PresetConfig {
    Default,
    DraculaDark,
    OneLight,
    TokyoNight,
}

/// The user's theme: a preset, per-element overrides, or both.
#[derive(Clone, Debug, Default)]
pub struct ThemeConfig {
    pub preset: Option<PresetConfig>,
    pub header: Option<StyleConfig>,
    pub status_bar: Option<StyleConfig>,
    pub border_active: Option<StyleConfig>,
    pub border_inactive: Option<StyleConfig>,
    pub dialog_border: Option<StyleConfig>,
    pub cursor: Option<StyleConfig>,
    pub mailbox_current: Option<StyleConfig>,
    pub envelope_header: Option<StyleConfig>,
    pub envelope_seen: Option<StyleConfig>,
    pub envelope_unread: Option<StyleConfig>,
    pub message_body: Option<StyleConfig>,
    pub compose_text: Option<StyleConfig>,
    pub compose_cursor: Option<StyleConfig>,
    pub compose_selection: Option<StyleConfig>,
}

/// An element's style as the configuration writes it: optional colours
/// and a list of modifiers to turn on.
#[derive(Clone, Debug, Default)]
pub struct StyleConfig {
    pub fg: Option<ThemeColor>,
    pub bg: Option<ThemeColor>,
    pub modifiers: Vec<ModifierConfig>,
}

/// Kebab-case mirror of the terminal style modifiers, one variant per
/// flag.
#[derive(Clone, Copy, Debug, PartialEq, Eq, Structural)]
pub enum ModifierConfig {
    Bold,
    Dim,
    Italic,
    Underlined,
    SlowBlink,
    RapidBlink,
    Reversed,
    Hidden,
    CrossedOut,
}

/// Per-account `mailbox.*` options.
#[derive(Clone, Debug, Default)]
pub struct MailboxConfig {
    /// Aliases keyed by friendly name, `inbox = "INBOX"` and friends.
    pub aliases: HashMap<String, String>,
}

/// Per-account `imap.sort.*` options.
///
/// Accepted so a configuration shared with the himalaya CLI loads, but
/// inert here: the interface paginates a sequence-set window and
/// reverses it rather than issuing `SORT`.
#[derive(Clone, Debug, Default)]
pub struct ImapSortConfig {
    /// Forces the CLI's SORT fallback on or off. Read by the CLI only.
    pub fallback: Option<bool>,
}

/// Per-account `imap.id.*` quirks.
#[derive(Clone, Debug, Default)]
pub struct ImapIdConfig {
    /// Chains an `ID` round-trip after the tagged auth response.
    pub auto: bool,
    /// Parameters sent with the auto-ID command, empty sending `ID NIL`.
    ///
    /// `true` substitutes the canned value for a well-known key
    /// (`name`, `version`, `vendor`, `support-url`) and `NIL` for any
    /// other, `false` always sends `NIL`. An absent key is not sent.
    ///
    /// Held as the table's entries, each key once (see
    /// `imap::client::distinct_keys`).
    pub fields: Vec<(String, bool)>,
}

/// The `maildir` block.
#[derive(Clone, Debug)]
pub struct MaildirConfig {
    /// Filesystem root holding the per-account Maildir tree.
    ///
    /// The directory must already exist, the wizard never creating it.
    /// Each child mailbox is a Maildir, with its `cur`, `new` and `tmp`.
    pub root: PathBuf,
}

/// TLS settings shared by every network backend.
#[derive(Clone, Debug, Default)]
pub struct TlsConfig {
    pub provider: Option<TlsProviderConfig>,
    pub rustls: RustlsConfig,
    /// Extra root certificate trusted on top of the system store.
    pub cert: Option<PathBuf>,
}

/// The TLS implementation to connect with.
#[derive(Clone, Copy, Debug, PartialEq, Eq, Structural)]
pub enum TlsProviderConfig {
    Rustls,
    NativeTls,
}

/// Settings read by the rustls provider alone.
#[derive(Clone, Debug, Default)]
pub struct RustlsConfig {
    pub crypto: Option<RustlsCryptoConfig>,
}

/// The rustls cryptographic provider.
#[derive(Clone, Copy, Debug, PartialEq, Eq, Structural)]
pub enum RustlsCryptoConfig {
    Aws,
    Ring,
}

/// Credentials of the ANONYMOUS mechanism.
#[derive(Clone, Debug, Default)]
pub struct SaslAnonymousConfig {
    /// Trace token the server logs, an email address by convention.
    pub message: Option<String>,
}

/// Whether an `-a` value asks for the default account: absent, empty
/// or the word `default`.
pub open spec fn asks_default(name: Option<Seq<char>>) -> bool {
    match name {
        None => true,
        Some(name) => name.len() == 0 || name == "default"@,
    }
}

/// The account name a lookup addresses, `None` for the account flagged
/// `default`.
///
/// The rest of the lookup reads the configuration's account map: a name
/// it does not hold is an error listing the names it does.
pub fn account_lookup(name: Option<&str>) -> (named: Option<&str>)
    ensures
        named is None <==> asks_default(name.deep_view()),
        named matches Some(n) ==> name matches Some(m) && n@ == m@,
{
    match name {
        None => None,
        Some(name) => {
            if name.unicode_len() == 0 || str_eq(name, "default") {
                None
            } else {
                Some(name)
            }
        },
    }
}

/// Why a named account could not be opened.
#[derive(Clone, Debug)]
pub enum AccountLookupError {
    /// The account asked for, in a configuration declaring none at all.
    NoneDeclared(String),
    /// The account asked for, and the names the configuration declares
    /// instead, in lexicographic order.
    Unknown(String, Vec<String>),
}

/// The names of the declared accounts.
pub open spec fn account_names<T>(accounts: Seq<(String, bool, T)>) -> Seq<Seq<char>> {
    accounts.map_values(|a: (String, bool, T)| a.0@)
}

/// Whether the lookup `name` takes the account at `i`: asking for the
/// default (see `account_lookup`), the first account flagged default;
/// asking for a name, the first account under it.
pub open spec fn taken_at<T>(name: Option<Seq<char>>, accounts: Seq<(String, bool, T)>, i: int) -> bool {
    &&& 0 <= i < accounts.len()
    &&& if asks_default(name) {
        &&& accounts[i].1
        &&& forall|k: int| 0 <= k < i ==> !(#[trigger] accounts[k]).1
    } else {
        &&& name matches Some(n) && accounts[i].0@ == n
        &&& forall|k: int| 0 <= k < i ==> (#[trigger] accounts[k]).0@ != name->0
    }
}

/// The position of the account the lookup `name` takes.
fn find_account<T>(name: Option<&str>, accounts: &Vec<(String, bool, T)>) -> (r: Result<
    Option<usize>,
    AccountLookupError,
>)
    ensures
        match r {
            Ok(Some(i)) => taken_at(name.deep_view(), accounts@, i as int),
            Ok(None) => asks_default(name.deep_view()) && forall|k: int|
                0 <= k < accounts@.len() ==> !(#[trigger] accounts@[k]).1,
            Err(AccountLookupError::NoneDeclared(asked)) => {
                &&& !asks_default(name.deep_view())
                &&& name matches Some(n) && asked@ == n@
                &&& accounts@.len() == 0
            },
            Err(AccountLookupError::Unknown(asked, known)) => {
                &&& !asks_default(name.deep_view())
                &&& name matches Some(n) && asked@ == n@
                &&& accounts@.len() > 0
                &&& forall|k: int| 0 <= k < accounts@.len() ==> (#[trigger] accounts@[k]).0@ != asked@
                &&& sorted_by(texts(known@), text_order())
                &&& texts(known@).to_multiset() =~= account_names(accounts@).to_multiset()
            },
        },
{
    match account_lookup(name) {
        None => {
            let mut i: usize = 0;
            while i < accounts.len()
                invariant
                    i <= accounts@.len(),
                    asks_default(name.deep_view()),
                    forall|k: int| 0 <= k < i ==> !(#[trigger] accounts@[k]).1,
                decreases accounts@.len() - i,
            {
                if accounts[i].1 {
                    return Ok(Some(i));
                }
                i = i + 1;
            }
            Ok(None)
        },
        Some(n) => {
            let mut i: usize = 0;
            while i < accounts.len()
                invariant
                    i <= accounts@.len(),
                    !asks_default(name.deep_view()),
                    name matches Some(m) && m@ == n@,
                    forall|k: int| 0 <= k < i ==> (#[trigger] accounts@[k]).0@ != n@,
                decreases accounts@.len() - i,
            {
                if str_eq(accounts[i].0.as_str(), n) {
                    return Ok(Some(i));
                }
                i = i + 1;
            }
            if accounts.len() == 0 {
                return Err(AccountLookupError::NoneDeclared(n.to_owned()));
            }
            let mut names: Vec<String> = Vec::new();
            let mut j: usize = 0;
            while j < accounts.len()
                invariant
                    j <= accounts@.len(),
                    texts(names@) =~= account_names(accounts@.take(j as int)),
                decreases accounts@.len() - j,
            {
                names.push(accounts[j].0.clone());
                assert(account_names(accounts@.take(j + 1)) =~= account_names(
                    accounts@.take(j as int),
                ).push(accounts@[j as int].0@));
                j = j + 1;
            }
            assert(accounts@.take(j as int) =~= accounts@);
            let known = sorted_names(&names);
            Err(AccountLookupError::Unknown(n.to_owned(), known))
        },
    }
}

/// Whether each declared account name occurs once, as in the table the
/// accounts are read from.
pub open spec fn distinct_names<T>(accounts: Seq<(String, bool, T)>) -> bool {
    forall|i: int, j: int| 0 <= i < j < accounts.len() ==> accounts[i].0@ != accounts[j].0@
}

/// Takes the account `name` asks for out of the declared `accounts`,
/// each a name, whether it is flagged `default`, and its block.
///
/// Asking for the default takes the first account flagged default,
/// `None` when none is. Asking for a name takes the first account under
/// it; a name the configuration cannot answer is an error, which lists
/// the names it does declare. The account taken leaves the list; the
/// list is untouched otherwise.
pub fn take_account<T>(name: Option<&str>, accounts: &mut Vec<(String, bool, T)>) -> (r: Result<
    Option<(String, T)>,
    AccountLookupError,
>)
    requires
        distinct_names(old(accounts)@),
    ensures
        match r {
            Ok(Some(taken)) => exists|i: int|
                {
                    &&& taken_at(name.deep_view(), old(accounts)@, i)
                    &&& taken.0 == old(accounts)@[i].0
                    &&& taken.1 == old(accounts)@[i].2
                    &&& final(accounts)@ == old(accounts)@.remove(i)
                },
            Ok(None) => {
                &&& asks_default(name.deep_view())
                &&& forall|k: int| 0 <= k < old(accounts)@.len() ==> !(#[trigger] old(accounts)@[k]).1
                &&& final(accounts)@ == old(accounts)@
            },
            Err(AccountLookupError::NoneDeclared(asked)) => {
                &&& !asks_default(name.deep_view())
                &&& name matches Some(n) && asked@ == n@
                &&& old(accounts)@.len() == 0
                &&& final(accounts)@ == old(accounts)@
            },
            Err(AccountLookupError::Unknown(asked, known)) => {
                &&& !asks_default(name.deep_view())
                &&& name matches Some(n) && asked@ == n@
                &&& old(accounts)@.len() > 0
                &&& forall|k: int| 0 <= k < old(accounts)@.len() ==> (#[trigger] old(accounts)@[k]).0@ != asked@
                &&& sorted_by(texts(known@), text_order())
                &&& texts(known@).to_multiset() =~= account_names(old(accounts)@).to_multiset()
                &&& final(accounts)@ == old(accounts)@
            },
        },
{
    match find_account(name, accounts) {
        Ok(Some(i)) => {
            let entry = accounts.remove(i);
            Ok(Some((entry.0, entry.2)))
        },
        Ok(None) => Ok(None),
        Err(err) => Err(err),
    }
}

} // verus!
