//! Special-use mailbox aliases folded into a generated account as
//! `mailbox.alias.*`.
//!
//! The interface resolves a mailbox by name against the live listing
//! and needs none of it, but the himalaya CLI addresses mailboxes by
//! alias and one file backs both binaries.

use vstd::prelude::*;
use vstd::string::*;

use crate::text::str_eq;

verus! {

/// The IMAP inbox alias, as the one entry of the alias table.
///
/// `INBOX` is reserved on every server (RFC 3501), so it is safe to
/// pin. The other roles wait on LIST `RETURN (SPECIAL-USE)` (RFC 6154).
pub fn imap_aliases() -> (aliases: Vec<(String, String)>)
    ensures
        aliases@.len() == 1,
        aliases@[0].0@ == "inbox"@,
        aliases@[0].1@ == "INBOX"@,
{
    let mut aliases: Vec<(String, String)> = Vec::new();
    aliases.push(("inbox".to_owned(), "INBOX".to_owned()));
    aliases
}

/// The role a JMAP mailbox carries (RFC 8621 section 2).
#[derive(Clone, Debug, PartialEq, Eq)]
pub enum MailboxRole {
    Inbox,
    Archive,
    Drafts,
    Flagged,
    Important,
    Junk,
    Sent,
    Subscribed,
    Trash,
    /// A server-defined or unrecognised role.
    Other(String),
}

/// The alias key a role files its mailbox under, `None` for a role the
/// CLI has no alias for.
pub open spec fn spec_role_alias(role: MailboxRole) -> Option<Seq<char>> {
    match role {
        MailboxRole::Inbox => Some("inbox"@),
        MailboxRole::Archive => Some("archive"@),
        MailboxRole::Drafts => Some("drafts"@),
        MailboxRole::Flagged => Some("flagged"@),
        MailboxRole::Important => Some("important"@),
        MailboxRole::Junk => Some("junk"@),
        MailboxRole::Sent => Some("sent"@),
        MailboxRole::Trash => Some("trash"@),
        _ => None,
    }
}

/// The name RFC 8621 (section 2, the IANA "JMAP Mailbox Roles"
/// registry, after RFC 6154) gives a role on the wire, in lowercase;
/// `None` for a role outside the registry.
pub open spec fn registered_role_name(role: MailboxRole) -> Option<Seq<char>> {
    if role is Inbox {
        Some("inbox"@)
    } else if role is Archive {
        Some("archive"@)
    } else if role is Drafts {
        Some("drafts"@)
    } else if role is Flagged {
        Some("flagged"@)
    } else if role is Important {
        Some("important"@)
    } else if role is Junk {
        Some("junk"@)
    } else if role is Sent {
        Some("sent"@)
    } else if role is Subscribed {
        Some("subscribed"@)
    } else if role is Trash {
        Some("trash"@)
    } else {
        None
    }
}

/// A role is filed under its own registered name, and every registered
/// role but `subscribed` (which marks no special mailbox) is filed; an
/// unregistered role is not.
pub proof fn a_role_is_filed_under_its_own_name(role: MailboxRole)
    ensures
        role is Subscribed ==> spec_role_alias(role) is None,
        !(role is Subscribed) ==> spec_role_alias(role) == registered_role_name(role),
{
}

/// Distinct roles are filed under distinct keys.
pub proof fn distinct_roles_get_distinct_keys(a: MailboxRole, b: MailboxRole)
    requires
        spec_role_alias(a) is Some,
        spec_role_alias(a) == spec_role_alias(b),
    ensures
        a == b,
{
    reveal_strlit("inbox");
    reveal_strlit("archive");
    reveal_strlit("drafts");
    reveal_strlit("flagged");
    reveal_strlit("important");
    reveal_strlit("junk");
    reveal_strlit("sent");
    reveal_strlit("trash");
    assert("inbox"@[0] == 'i' && "inbox"@.len() == 5);
    assert("archive"@[0] == 'a' && "archive"@.len() == 7);
    assert("drafts"@[0] == 'd' && "drafts"@.len() == 6);
    assert("flagged"@[0] == 'f' && "flagged"@.len() == 7);
    assert("important"@[0] == 'i' && "important"@.len() == 9);
    assert("junk"@[0] == 'j' && "junk"@.len() == 4);
    assert("sent"@[0] == 's' && "sent"@.len() == 4);
    assert("trash"@[0] == 't' && "trash"@.len() == 5);
    if let (Some(ka), Some(kb)) = (spec_role_alias(a), spec_role_alias(b)) {
        assert(ka[0] == kb[0] && ka.len() == kb.len());
    }
}

/// The alias key a JMAP mailbox role files its mailbox under.
pub fn role_alias(role: &MailboxRole) -> (key: Option<&'static str>)
    ensures
        match key {
            Some(k) => spec_role_alias(*role) == Some(k@),
            None => spec_role_alias(*role) is None,
        },
{
    match role {
        MailboxRole::Inbox => Some("inbox"),
        MailboxRole::Archive => Some("archive"),
        MailboxRole::Drafts => Some("drafts"),
        MailboxRole::Flagged => Some("flagged"),
        MailboxRole::Important => Some("important"),
        MailboxRole::Junk => Some("junk"),
        MailboxRole::Sent => Some("sent"),
        MailboxRole::Trash => Some("trash"),
        _ => None,
    }
}

/// The alias table a JMAP mailbox listing makes: each mailbox with an
/// id and a role that has an alias key, filed under that key, a later
/// mailbox of one role replacing an earlier one.
pub open spec fn spec_jmap_aliases(mailboxes: Seq<(Option<String>, Option<MailboxRole>)>) -> Map<
    Seq<char>,
    Seq<char>,
>
    decreases mailboxes.len(),
{
    if mailboxes.len() == 0 {
        Map::empty()
    } else {
        let rest = spec_jmap_aliases(mailboxes.drop_last());
        match mailboxes.last() {
            (Some(id), Some(role)) => match spec_role_alias(role) {
                Some(key) => rest.insert(key, id@),
                None => rest,
            },
            _ => rest,
        }
    }
}

/// The views of alias entries.
pub open spec fn alias_entries_view(entries: Seq<(&'static str, String)>) -> Seq<
    (Seq<char>, Seq<char>),
> {
    entries.map_values(|e: (&'static str, String)| (e.0@, e.1@))
}

/// Whether a list of entries is the table `m`: each key once, each
/// entry one of the table's, and every key of the table listed.
pub open spec fn lists_table(entries: Seq<(Seq<char>, Seq<char>)>, m: Map<Seq<char>, Seq<char>>) -> bool {
    &&& forall|i: int, j: int| 0 <= i < j < entries.len() ==> entries[i].0 != entries[j].0
    &&& forall|i: int| 0 <= i < entries.len() ==> #[trigger] m.contains_key(entries[i].0) && m[entries[i].0] == entries[i].1
    &&& forall|k: Seq<char>| #[trigger] m.contains_key(k) ==> exists|i: int| 0 <= i < entries.len() && entries[i].0 == k
}

/// The JMAP mailbox roles (RFC 8621) as the alias table, from a
/// `Mailbox/get` reply given as each mailbox's id and role, `None`
/// standing for a failed request.
///
/// Best-effort: a failed request gives an empty table, and a mailbox
/// without an id or without a role the CLI has an alias for is skipped.
pub fn jmap_aliases(reply: Option<&Vec<(Option<String>, Option<MailboxRole>)>>) -> (entries: Vec<
    (&'static str, String),
>)
    ensures
        match reply {
            None => entries@.len() == 0,
            Some(mailboxes) => lists_table(alias_entries_view(entries@), spec_jmap_aliases(mailboxes@)),
        },
{
    let mailboxes = match reply {
        None => {
            return Vec::new();
        },
        Some(mailboxes) => mailboxes,
    };
    let mut entries: Vec<(&'static str, String)> = Vec::new();
    let mut i: usize = 0;
    proof {
        assert(mailboxes@.take(0) =~= Seq::<(Option<String>, Option<MailboxRole>)>::empty());
    }
    while i < mailboxes.len()
        invariant
            i <= mailboxes@.len(),
            lists_table(alias_entries_view(entries@), spec_jmap_aliases(mailboxes@.take(i as int))),
        decreases mailboxes@.len() - i,
    {
        let ghost before = alias_entries_view(entries@);
        let ghost m = spec_jmap_aliases(mailboxes@.take(i as int));
        proof {
            assert(mailboxes@.take(i + 1).drop_last() =~= mailboxes@.take(i as int));
        }
        match (&mailboxes[i].0, &mailboxes[i].1) {
            (Some(id), Some(role)) => match role_alias(role) {
                Some(key) => {
                    let mut j: usize = 0;
                    while j < entries.len()
                        invariant
                            j <= entries@.len(),
                            forall|t: int| 0 <= t < j ==> (#[trigger] entries@[t]).0@ != key@,
                        ensures
                            j <= entries@.len(),
                            forall|t: int| 0 <= t < j ==> (#[trigger] entries@[t]).0@ != key@,
                            j < entries@.len() ==> entries@[j as int].0@ == key@,
                        decreases entries@.len() - j,
                    {
                        if str_eq(entries[j].0, key) {
                            break;
                        }
                        j = j + 1;
                    }
                    let ghost m2 = m.insert(key@, id@);
                    if j < entries.len() {
                        let ghost old_entries = entries@;
                        entries.set(j, (key, id.clone()));
                        proof {
                            let after = alias_entries_view(entries@);
                            assert(before[j as int].0 == old_entries[j as int].0@);
                            assert(after =~= before.update(j as int, (key@, id@)));
                            assert forall|k: Seq<char>| #[trigger] m2.contains_key(k) implies exists|t: int|
                                0 <= t < after.len() && after[t].0 == k by {
                                if k != key@ {
                                    let t = choose|t: int| 0 <= t < before.len() && before[t].0 == k;
                                    assert(after[t].0 == k);
                                } else {
                                    assert(after[j as int].0 == k);
                                }
                            }
                            assert forall|t: int| 0 <= t < after.len() implies #[trigger] m2.contains_key(after[t].0) && m2[after[t].0] == after[t].1 by {
                                if t != j {
                                    assert(before[t].0 != before[j as int].0);
                                    assert(after[t] == before[t]);
                                    assert(m.contains_key(before[t].0));
                                } else {
                                    assert(after[t] == (key@, id@));
                                }
                            }
                            assert forall|a: int, b: int| 0 <= a < b < after.len() implies after[a].0 != after[b].0 by {
                                assert(before[a].0 != before[b].0);
                            }
                            assert(lists_table(after, m2));
                        }
                    } else {
                        let ghost old_entries = entries@;
                        entries.push((key, id.clone()));
                        proof {
                            let after = alias_entries_view(entries@);
                            assert forall|t: int| 0 <= t < before.len() implies #[trigger] before[t].0 != key@ by {
                                assert(before[t].0 == old_entries[t].0@);
                            }
                            assert(after =~= before.push((key@, id@)));
                            assert forall|k: Seq<char>| #[trigger] m2.contains_key(k) implies exists|t: int|
                                0 <= t < after.len() && after[t].0 == k by {
                                if k != key@ {
                                    let t = choose|t: int| 0 <= t < before.len() && before[t].0 == k;
                                    assert(after[t].0 == k);
                                } else {
                                    assert(after[before.len() as int].0 == k);
                                }
                            }
                            assert forall|t: int| 0 <= t < after.len() implies #[trigger] m2.contains_key(after[t].0) && m2[after[t].0] == after[t].1 by {
                                if t < before.len() {
                                    assert(after[t] == before[t]);
                                    assert(before[t].0 != key@);
                                } else {
                                    assert(after[t] == (key@, id@));
                                }
                            }
                            assert forall|a: int, b: int| 0 <= a < b < after.len() implies after[a].0 != after[b].0 by {
                                if b < before.len() {
                                    assert(after[a] == before[a] && after[b] == before[b]);
                                } else {
                                    assert(after[a] == before[a]);
                                    assert(before[a].0 != key@);
                                }
                            }
                            assert(lists_table(after, m2));
                        }
                    }
                },
                None => {},
            },
            _ => {},
        }
        i = i + 1;
    }
    assert(mailboxes@.take(i as int) =~= mailboxes@);
    entries
}

} // verus!
