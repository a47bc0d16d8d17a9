//! Which backend an account's session reads from and sends through.
//!
//! The storage backend is the first configured one, local before
//! network; a backend that cannot send hands its messages to the
//! account's SMTP transport.

use vstd::prelude::*;

verus! {

/// The backends a build of the binary carries, each behind a feature of
/// its own; a block for a backend the build leaves out still loads, and
/// is ignored.
#[derive(Clone, Copy, Debug, PartialEq, Eq, Structural)]
pub struct Backends {
    pub imap: bool,
    pub smtp: bool,
    pub jmap: bool,
    pub maildir: bool,
}

/// The documented release build: IMAP and SMTP, JMAP and Maildir left
/// out.
pub open spec fn spec_documented_build() -> Backends {
    Backends { imap: true, smtp: true, jmap: false, maildir: false }
}

/// The documented release build: IMAP and SMTP, JMAP and Maildir left
/// out.
pub fn documented_build() -> (b: Backends)
    ensures
        b == spec_documented_build(),
{
    Backends { imap: true, smtp: true, jmap: false, maildir: false }
}

/// The storage backends an account can read from.
#[derive(Clone, Copy, Debug, PartialEq, Eq, Structural)]
pub enum StorageKind {
    Maildir,
    Jmap,
    Imap,
}

/// The storage backend picked among the configured ones the build
/// carries: Maildir, then JMAP, then IMAP; `None` when there is none.
pub open spec fn spec_storage_kind(
    has_maildir: bool,
    has_jmap: bool,
    has_imap: bool,
    built: Backends,
) -> Option<StorageKind> {
    if has_maildir && built.maildir {
        Some(StorageKind::Maildir)
    } else if has_jmap && built.jmap {
        Some(StorageKind::Jmap)
    } else if has_imap && built.imap {
        Some(StorageKind::Imap)
    } else {
        None
    }
}

/// Picks the account's storage backend, the first configured one.
///
/// Local before network, matching the read priority of the himalaya
/// CLI's dispatcher.
pub fn select_storage_kind(
    has_maildir: bool,
    has_jmap: bool,
    has_imap: bool,
    built: Backends,
) -> (kind: Option<StorageKind>)
    ensures
        kind == spec_storage_kind(has_maildir, has_jmap, has_imap, built),
{
    if has_maildir && built.maildir {
        Some(StorageKind::Maildir)
    } else if has_jmap && built.jmap {
        Some(StorageKind::Jmap)
    } else if has_imap && built.imap {
        Some(StorageKind::Imap)
    } else {
        None
    }
}

/// What carries an outgoing message.
#[derive(Clone, Copy, Debug, PartialEq, Eq, Structural)]
pub enum SendRoute {
    /// The storage backend sends it itself (JMAP submission).
    Storage,
    /// The account's SMTP transport sends it.
    Smtp,
}

/// The route a message leaves by: the storage backend when it can send
/// (JMAP, in a build carrying it), otherwise the SMTP transport when the
/// build carries SMTP and the account has one, and none at all
/// otherwise.
pub open spec fn spec_send_route(storage: Option<StorageKind>, has_smtp: bool, built: Backends) -> Option<
    SendRoute,
> {
    if storage == Some(StorageKind::Jmap) && built.jmap {
        Some(SendRoute::Storage)
    } else if has_smtp && built.smtp {
        Some(SendRoute::Smtp)
    } else {
        None
    }
}

/// Picks the route an outgoing message leaves by.
pub fn send_route(storage: Option<StorageKind>, has_smtp: bool, built: Backends) -> (route: Option<
    SendRoute,
>)
    ensures
        route == spec_send_route(storage, has_smtp, built),
{
    match storage {
        Some(StorageKind::Jmap) if built.jmap => Some(SendRoute::Storage),
        _ => if has_smtp && built.smtp {
            Some(SendRoute::Smtp)
        } else {
            None
        },
    }
}

/// The SMTP transport slot of a session: absent from the account,
/// configured (`C`) but not yet connected, or connected (`K`).
///
/// Staying unconnected until the first send lets a read-only session
/// open no SMTP connection.
pub enum SmtpSlot<C, K> {
    Absent,
    Pending(C),
    Ready(K),
}

/// What a send asks of the slot.
pub enum SmtpStep<C> {
    /// Connect with this configuration; the slot is left absent until
    /// the connection is handed back.
    Connect(C),
    /// Send through the connected client.
    Send,
    /// The account has no usable SMTP transport.
    Unavailable,
}

/// The slot after a send's first step, and that step: a pending
/// configuration is taken out to connect with, so a connection that
/// fails leaves the slot absent and is never retried.
pub open spec fn spec_smtp_step<C, K>(slot: SmtpSlot<C, K>) -> (SmtpSlot<C, K>, SmtpStep<C>) {
    match slot {
        SmtpSlot::Absent => (SmtpSlot::Absent, SmtpStep::Unavailable),
        SmtpSlot::Pending(c) => (SmtpSlot::Absent, SmtpStep::Connect(c)),
        SmtpSlot::Ready(k) => (SmtpSlot::Ready(k), SmtpStep::Send),
    }
}

/// The first step of a send through the slot.
pub fn smtp_step<C, K>(slot: &mut SmtpSlot<C, K>) -> (step: SmtpStep<C>)
    ensures
        (*final(slot), step) == spec_smtp_step(*old(slot)),
{
    let mut taken = SmtpSlot::Absent;
    std::mem::swap(&mut taken, slot);
    match taken {
        SmtpSlot::Absent => SmtpStep::Unavailable,
        SmtpSlot::Pending(c) => SmtpStep::Connect(c),
        SmtpSlot::Ready(k) => {
            *slot = SmtpSlot::Ready(k);
            SmtpStep::Send
        },
    }
}

/// Hands a freshly connected client to the slot.
pub fn smtp_connected<C, K>(slot: &mut SmtpSlot<C, K>, client: K)
    ensures
        *final(slot) == SmtpSlot::<C, K>::Ready(client),
{
    *slot = SmtpSlot::Ready(client);
}

/// The transport connects at most once: the send that finds it pending
/// connects, and if that connection fails (its client never handed
/// back) every later send finds no transport.
pub proof fn a_failed_connection_is_not_retried<C, K>(config: C)
    ensures
        ({
            let (after, step) = spec_smtp_step(SmtpSlot::<C, K>::Pending(config));
            &&& step == SmtpStep::Connect(config)
            &&& spec_smtp_step(after).1 == SmtpStep::<C>::Unavailable
            &&& spec_smtp_step(after).0 == after
        }),
{
}


/// The storage backend read from is one the account configures and the
/// build carries, and a local one wins over a network one, JMAP over
/// IMAP; an account configuring none the build carries has none.
pub proof fn storage_is_the_first_usable_backend(
    has_maildir: bool,
    has_jmap: bool,
    has_imap: bool,
    built: Backends,
)
    ensures
        ({
            let kind = spec_storage_kind(has_maildir, has_jmap, has_imap, built);
            &&& (kind == Some(StorageKind::Maildir)) <==> (has_maildir && built.maildir)
            &&& (kind == Some(StorageKind::Jmap)) <==> (!(has_maildir && built.maildir) && has_jmap
                && built.jmap)
            &&& (kind == Some(StorageKind::Imap)) <==> (!(has_maildir && built.maildir) && !(has_jmap
                && built.jmap) && has_imap && built.imap)
            &&& (kind is None) <==> (!(has_maildir && built.maildir) && !(has_jmap && built.jmap)
                && !(has_imap && built.imap))
        }),
{
}

/// A message leaves through the storage backend only when that backend
/// is a JMAP one the build carries; any other storage, Maildir and IMAP
/// alike, hands it to SMTP whenever the account has an SMTP block and
/// the build carries SMTP, and otherwise it cannot leave.
pub proof fn every_other_storage_sends_through_smtp(
    storage: Option<StorageKind>,
    has_smtp: bool,
    built: Backends,
)
    ensures
        ({
            let route = spec_send_route(storage, has_smtp, built);
            let jmap_sends = storage == Some(StorageKind::Jmap) && built.jmap;
            &&& jmap_sends ==> route == Some(SendRoute::Storage)
            &&& !jmap_sends && has_smtp && built.smtp ==> route == Some(SendRoute::Smtp)
            &&& !jmap_sends && !(has_smtp && built.smtp) ==> route is None
        }),
{
}

} // verus!
