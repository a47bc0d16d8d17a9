//! Model layer of the interface: the panels, dialogs and actions it
//! names, and what it derives from the listings it holds.

use vstd::prelude::*;
use vstd::string::*;

use crate::email::mailbox::Mailbox;
use crate::text::{contains, has_infix, str_eq};

verus! {

/// Mailbox rows visible inside the CopyTo and MoveTo dialog list.
///
/// The view sizes the block from it and the update layer clamps the
/// selection to it.
pub const MAILBOX_DIALOG_VISIBLE: usize = 10;

/// Active focus among the four panels.
#[derive(Debug, Clone, Copy, PartialEq, Eq, Structural)]
pub enum Panel {
    /// Mailbox list.
    Mailboxes,
    /// Envelope list of the selected mailbox.
    Envelopes,
    /// Body of the message being read.
    Message,
    /// Composer buffer.
    Compose,
}

/// Sub-modality of the bottom pane.
#[derive(Debug, Clone, Copy, PartialEq, Eq, Structural)]
pub enum BottomPanel {
    /// Nothing shown, the pane is closed.
    Closed,
    /// A stored message being read.
    Message,
    /// Compiled MIME of an in-flight compose buffer.
    ///
    /// Esc returns to the composer instead of closing the pane.
    MessagePreview,
    /// The composer itself.
    Compose,
}

/// Dialog open over the panels.
#[derive(Debug, Clone, Copy, PartialEq, Eq, Structural)]
pub enum Dialog {
    /// Actions available on the selected envelope.
    Envelope,
    /// Actions available on the compose buffer.
    Compose,
    /// Mailbox picker for a copy.
    CopyTo,
    /// Mailbox picker for a move.
    MoveTo,
    /// Flag picker for an addition.
    FlagAdd,
    /// Flag picker for a removal.
    FlagRemove,
}

/// Action offered by the envelope dialog.
#[derive(Debug, Clone, Copy, PartialEq, Eq, Structural)]
pub enum EnvelopeAction {
    /// Open the message in the bottom pane.
    Read,
    /// Compose a reply to the sender.
    Reply,
    /// Compose a reply to every recipient.
    ReplyAll,
    /// Compose a forward of the message.
    Forward,
    /// Copy the message to another mailbox.
    Copy,
    /// Move the message to another mailbox.
    Move,
    /// Add a flag to the message.
    AddFlag,
    /// Remove a flag from the message.
    RemoveFlag,
}

/// Every envelope action, in dialog order.
pub open spec fn envelope_actions() -> Seq<EnvelopeAction> {
    seq![
        EnvelopeAction::Read,
        EnvelopeAction::Reply,
        EnvelopeAction::ReplyAll,
        EnvelopeAction::Forward,
        EnvelopeAction::Copy,
        EnvelopeAction::Move,
        EnvelopeAction::AddFlag,
        EnvelopeAction::RemoveFlag,
    ]
}

impl EnvelopeAction {
    /// Every envelope action, in dialog order.
    pub const ALL: [EnvelopeAction; 8] = [
        EnvelopeAction::Read,
        EnvelopeAction::Reply,
        EnvelopeAction::ReplyAll,
        EnvelopeAction::Forward,
        EnvelopeAction::Copy,
        EnvelopeAction::Move,
        EnvelopeAction::AddFlag,
        EnvelopeAction::RemoveFlag,
    ];

    /// Label shown in the dialog, as a character sequence.
    pub open spec fn spec_label(self) -> Seq<char> {
        match self {
            EnvelopeAction::Read => "Read"@,
            EnvelopeAction::Reply => "Reply"@,
            EnvelopeAction::ReplyAll => "Reply All"@,
            EnvelopeAction::Forward => "Forward"@,
            EnvelopeAction::Copy => "Copy"@,
            EnvelopeAction::Move => "Move"@,
            EnvelopeAction::AddFlag => "Add flag"@,
            EnvelopeAction::RemoveFlag => "Remove flag"@,
        }
    }

    /// Label shown in the dialog.
    pub fn label(&self) -> (label: &'static str)
        ensures
            label@ == self.spec_label(),
    {
        match self {
            EnvelopeAction::Read => "Read",
            EnvelopeAction::Reply => "Reply",
            EnvelopeAction::ReplyAll => "Reply All",
            EnvelopeAction::Forward => "Forward",
            EnvelopeAction::Copy => "Copy",
            EnvelopeAction::Move => "Move",
            EnvelopeAction::AddFlag => "Add flag",
            EnvelopeAction::RemoveFlag => "Remove flag",
        }
    }
}

/// Action offered by the compose dialog.
#[derive(Debug, Clone, Copy, PartialEq, Eq, Structural)]
pub enum ComposeAction {
    /// Send the buffer through the backend.
    Send,
    /// Show the compiled MIME in the bottom pane.
    Preview,
    /// Save the buffer to the drafts mailbox.
    SaveToDrafts,
    /// Discard the buffer and leave the composer.
    Cancel,
}

/// Every compose action, in dialog order.
pub open spec fn compose_actions() -> Seq<ComposeAction> {
    seq![ComposeAction::Send, ComposeAction::Preview, ComposeAction::SaveToDrafts, ComposeAction::Cancel]
}

impl ComposeAction {
    /// Every compose action, in dialog order.
    pub const ALL: [ComposeAction; 4] = [
        ComposeAction::Send,
        ComposeAction::Preview,
        ComposeAction::SaveToDrafts,
        ComposeAction::Cancel,
    ];

    /// Label shown in the dialog, as a character sequence.
    pub open spec fn spec_label(self) -> Seq<char> {
        match self {
            ComposeAction::Send => "Send"@,
            ComposeAction::Preview => "Preview"@,
            ComposeAction::SaveToDrafts => "Save to Drafts"@,
            ComposeAction::Cancel => "Cancel"@,
        }
    }

    /// Label shown in the dialog.
    pub fn label(&self) -> (label: &'static str)
        ensures
            label@ == self.spec_label(),
    {
        match self {
            ComposeAction::Send => "Send",
            ComposeAction::Preview => "Preview",
            ComposeAction::SaveToDrafts => "Save to Drafts",
            ComposeAction::Cancel => "Cancel",
        }
    }
}

/// Flag offered by the add and remove dialogs.
#[derive(Debug, Clone, Copy, PartialEq, Eq, Structural)]
pub enum FlagAction {
    /// The seen flag.
    Seen,
    /// The flagged flag.
    Flagged,
    /// The answered flag.
    Answered,
}

/// Every flag action, in dialog order.
pub open spec fn flag_actions() -> Seq<FlagAction> {
    seq![FlagAction::Seen, FlagAction::Flagged, FlagAction::Answered]
}

impl FlagAction {
    /// Every flag action, in dialog order.
    pub const ALL: [FlagAction; 3] = [FlagAction::Seen, FlagAction::Flagged, FlagAction::Answered];

    /// Label shown in the dialog, as a character sequence.
    pub open spec fn spec_label(self) -> Seq<char> {
        match self {
            FlagAction::Seen => "Seen"@,
            FlagAction::Flagged => "Flagged"@,
            FlagAction::Answered => "Answered"@,
        }
    }

    /// Label shown in the dialog.
    pub fn label(&self) -> (label: &'static str)
        ensures
            label@ == self.spec_label(),
    {
        match self {
            FlagAction::Seen => "Seen",
            FlagAction::Flagged => "Flagged",
            FlagAction::Answered => "Answered",
        }
    }
}

/// Composer keybinding flavor.
///
/// Shared between the command line, the configuration and the model.
#[derive(Debug, Clone, Copy, PartialEq, Eq, Structural)]
pub enum Keybinds {
    /// Modal Vim bindings, the default.
    Vim,
    /// Emacs bindings.
    Emacs,
}

impl Default for Keybinds {
    fn default() -> (k: Self)
        ensures
            k == Keybinds::Vim,
    {
        Keybinds::Vim
    }
}

/// Which end of a freshly loaded page the selection lands on.
///
/// A page reached by moving down is entered from its top, one reached
/// by moving up from its bottom, so a cursor crossing the boundary
/// keeps travelling in the direction it was going.
#[derive(Debug, Clone, Copy, PartialEq, Eq, Structural)]
pub enum EnvelopeLanding {
    /// Select the first envelope of the page.
    First,
    /// Select the last envelope of the page.
    Last,
    /// Select the envelope at this offset into the page.
    ///
    /// Clamped to the last one. Used when a resized page has to keep
    /// the cursor on the envelope it was on.
    Index(usize),
}

/// Number of pages a mailbox of `total` envelopes spans at `page_size`
/// per page: `total / page_size` rounded up, and at least one.
pub open spec fn page_count(page_size: int, total: int) -> int {
    if page_size == 0 || total == 0 {
        1
    } else {
        (total + page_size - 1) / page_size
    }
}

/// Rounding a division up is the floor plus one exactly when the
/// division leaves a remainder.
pub proof fn lemma_ceil_div(t: int, s: int)
    requires
        t >= 0,
        s > 0,
    ensures
        (t + s - 1) / s == t / s + (if t % s == 0 {
            0int
        } else {
            1int
        }),
        t % s != 0 ==> t / s + 1 <= t,
{
    let q = t / s;
    let r = t % s;
    assert(t == q * s + r && 0 <= r < s) by (nonlinear_arith)
        requires
            s > 0,
            q == t / s,
            r == t % s,
    ;
    if r == 0 {
        assert((t + s - 1) / s == q) by (nonlinear_arith)
            requires
                t == q * s,
                s > 0,
        ;
    } else {
        assert((t + s - 1) / s == q + 1) by (nonlinear_arith)
            requires
                t == q * s + r,
                0 < r < s,
        ;
        assert(q + 1 <= t) by (nonlinear_arith)
            requires
                t == q * s + r,
                0 < r < s,
                q >= 0,
        ;
    }
}

/// Number of pages the selected mailbox spans, at least one.
pub fn total_pages(envelope_page_size: usize, envelope_total: u32) -> (pages: usize)
    ensures
        pages == page_count(envelope_page_size as int, envelope_total as int),
{
    if envelope_page_size == 0 || envelope_total == 0 {
        1
    } else {
        let total = envelope_total as usize;
        let whole = total / envelope_page_size;
        proof {
            lemma_ceil_div(total as int, envelope_page_size as int);
        }
        if total % envelope_page_size == 0 {
            whole
        } else {
            whole + 1
        }
    }
}

/// Number of entries the open dialog lists, `mailbox_count` being the
/// number of mailboxes the filter leaves.
pub open spec fn spec_dialog_item_count(dialog: Option<Dialog>, mailbox_count: int) -> int {
    match dialog {
        Some(Dialog::Envelope) => 8,
        Some(Dialog::Compose) => 4,
        Some(Dialog::CopyTo) | Some(Dialog::MoveTo) => mailbox_count,
        Some(Dialog::FlagAdd) | Some(Dialog::FlagRemove) => 3,
        None => 0,
    }
}

/// Number of entries the open dialog lists.
pub fn dialog_item_count(dialog: Option<Dialog>, mailbox_count: usize) -> (count: usize)
    ensures
        count == spec_dialog_item_count(dialog, mailbox_count as int),
{
    match dialog {
        Some(Dialog::Envelope) => EnvelopeAction::ALL.len(),
        Some(Dialog::Compose) => ComposeAction::ALL.len(),
        Some(Dialog::CopyTo) | Some(Dialog::MoveTo) => mailbox_count,
        Some(Dialog::FlagAdd) | Some(Dialog::FlagRemove) => FlagAction::ALL.len(),
        None => 0,
    }
}

/// Envelope action the dialog cursor is on.
pub fn selected_envelope_action(dialog_index: usize) -> (action: EnvelopeAction)
    requires
        dialog_index < 8,
    ensures
        action == envelope_actions()[dialog_index as int],
{
    EnvelopeAction::ALL[dialog_index]
}

/// Compose action the dialog cursor is on.
pub fn selected_compose_action(dialog_index: usize) -> (action: ComposeAction)
    requires
        dialog_index < 4,
    ensures
        action == compose_actions()[dialog_index as int],
{
    ComposeAction::ALL[dialog_index]
}

/// Flag action the dialog cursor is on.
pub fn selected_flag_action(dialog_index: usize) -> (action: FlagAction)
    requires
        dialog_index < 3,
    ensures
        action == flag_actions()[dialog_index as int],
{
    FlagAction::ALL[dialog_index]
}

/// What `str::to_lowercase` returns for `s`: its full Unicode lowercase
/// mapping, which takes the Unicode tables to state.
pub uninterp spec fn lowercase_of(s: Seq<char>) -> Seq<char>;

/// `str::to_lowercase`, the Unicode lowercase mapping of `s`, which
/// depends on `s` alone. Nothing more of the mapping is claimed.
#[verifier::external_body]
fn to_lowercase(s: &str) -> (r: String)
    ensures
        r@ == lowercase_of(s@),
{
    s.to_lowercase()
}

/// Whether a mailbox's name contains `needle`, case-insensitively.
pub open spec fn name_matches(mailbox: Mailbox, needle: Seq<char>) -> bool {
    has_infix(lowercase_of(mailbox.name@), lowercase_of(needle))
}

/// The mailboxes the filter `needle` keeps: all of them for an empty
/// filter, otherwise those whose name contains it case-insensitively,
/// in listing order.
pub open spec fn spec_filtered_mailboxes(mailboxes: Seq<Mailbox>, needle: Seq<char>) -> Seq<Mailbox> {
    if needle.len() == 0 {
        mailboxes
    } else {
        mailboxes.filter(|m: Mailbox| name_matches(m, needle))
    }
}

/// Mailboxes whose name contains the filter input, case-insensitively.
pub fn filtered_mailboxes<'a>(mailboxes: &'a Vec<Mailbox>, needle: &str) -> (r: Vec<&'a Mailbox>)
    ensures
        r@.map_values(|m: &Mailbox| *m) == spec_filtered_mailboxes(mailboxes@, needle@),
{
    let ghost pred = |m: Mailbox| name_matches(m, needle@);
    let keep_all = needle.unicode_len() == 0;
    let lowered = to_lowercase(needle);
    let mut r: Vec<&'a Mailbox> = Vec::new();
    let mut i: usize = 0;
    while i < mailboxes.len()
        invariant
            i <= mailboxes.len(),
            keep_all == (needle@.len() == 0),
            lowered@ == lowercase_of(needle@),
            pred == (|m: Mailbox| name_matches(m, needle@)),
            keep_all ==> r@.map_values(|m: &Mailbox| *m) == mailboxes@.take(i as int),
            !keep_all ==> r@.map_values(|m: &Mailbox| *m) == mailboxes@.take(i as int).filter(pred),
        decreases mailboxes.len() - i,
    {
        let ghost before = r@.map_values(|m: &Mailbox| *m);
        let m = &mailboxes[i];
        let keep = keep_all || contains(to_lowercase(m.name.as_str()).as_str(), lowered.as_str());
        if keep {
            r.push(m);
        }
        proof {
            reveal(Seq::filter);
            assert(mailboxes@.take(i + 1).drop_last() =~= mailboxes@.take(i as int));
            assert(mailboxes@.take(i + 1).last() == mailboxes@[i as int]);
            if keep {
                assert(r@.map_values(|m: &Mailbox| *m) =~= before.push(mailboxes@[i as int]));
            } else {
                assert(r@.map_values(|m: &Mailbox| *m) =~= before);
            }
        }
        i = i + 1;
    }
    assert(mailboxes@.take(mailboxes.len() as int) =~= mailboxes@);
    r
}

/// An empty filter hides nothing: the whole listing, in order.
pub proof fn an_empty_filter_keeps_everything(mailboxes: Seq<Mailbox>, needle: Seq<char>)
    requires
        needle.len() == 0,
    ensures
        spec_filtered_mailboxes(mailboxes, needle) == mailboxes,
{
}

/// The filter is case-insensitive: two non-empty filters that lowercase
/// alike keep the same mailboxes, in the same order.
pub proof fn the_filter_ignores_case(mailboxes: Seq<Mailbox>, a: Seq<char>, b: Seq<char>)
    requires
        a.len() > 0,
        b.len() > 0,
        lowercase_of(a) == lowercase_of(b),
    ensures
        spec_filtered_mailboxes(mailboxes, a) == spec_filtered_mailboxes(mailboxes, b),
{
    let pa = |m: Mailbox| name_matches(m, a);
    let pb = |m: Mailbox| name_matches(m, b);
    assert(pa =~= pb);
}

/// A filter keeps every mailbox whose name it is, whatever its case:
/// the filter never hides the mailbox the user typed out in full.
pub proof fn a_mailbox_named_by_the_filter_is_kept(mailboxes: Seq<Mailbox>, needle: Seq<char>, i: int)
    requires
        0 <= i < mailboxes.len(),
        mailboxes[i].name@ == needle,
    ensures
        spec_filtered_mailboxes(mailboxes, needle).contains(mailboxes[i]),
{
    if needle.len() > 0 {
        let l = lowercase_of(needle);
        assert(l.subrange(0, l.len() as int) =~= l);
        assert(crate::text::occurs_at(l, l, 0));
        let p = |m: Mailbox| name_matches(m, needle);
        assert(p(mailboxes[i]));
        mailboxes.lemma_filter_contains(p, i);
    } else {
        assert(mailboxes.contains(mailboxes[i]));
    }
}

/// The filter keeps only mailboxes of the listing, each one whose name
/// contains the filter once both are lowercased, and drops every other.
pub proof fn the_filter_keeps_exactly_the_matching_mailboxes(mailboxes: Seq<Mailbox>, needle: Seq<char>, m: Mailbox)
    requires
        needle.len() > 0,
    ensures
        spec_filtered_mailboxes(mailboxes, needle).contains(m) <==> (mailboxes.contains(m)
            && has_infix(lowercase_of(m.name@), lowercase_of(needle))),
{
    broadcast use vstd::seq_lib::group_filter_ensures;

    let p = |x: Mailbox| name_matches(x, needle);
    if mailboxes.contains(m) && has_infix(lowercase_of(m.name@), lowercase_of(needle)) {
        let i = choose|i: int| 0 <= i < mailboxes.len() && mailboxes[i] == m;
        mailboxes.lemma_filter_contains(p, i);
    }
    if mailboxes.filter(p).contains(m) {
        let j = choose|j: int| 0 <= j < mailboxes.filter(p).len() && mailboxes.filter(p)[j] == m;
        assert(p(mailboxes.filter(p)[j]));
        mailboxes.lemma_filter_contains_rev(p, m);
    }
}

/// Display name of the mailbox whose id is `selected`: the first one
/// listed under that id, `None` when none is or nothing is selected.
pub fn selected_mailbox_name<'a>(mailboxes: &'a Vec<Mailbox>, selected: Option<&str>) -> (name:
    Option<&'a str>)
    ensures
        match name {
            None => selected is None || forall|k: int|
                0 <= k < mailboxes.len() ==> mailboxes@[k].id@ != selected->0@,
            Some(name) => selected is Some && exists|k: int|
                0 <= k < mailboxes.len() && mailboxes@[k].id@ == selected->0@ && name@
                    == mailboxes@[k].name@ && forall|t: int|
                    0 <= t < k ==> mailboxes@[t].id@ != selected->0@,
        },
{
    let id = match selected {
        None => {
            return None;
        },
        Some(id) => id,
    };
    let mut i: usize = 0;
    while i < mailboxes.len()
        invariant
            i <= mailboxes.len(),
            selected == Some(id),
            forall|t: int| 0 <= t < i ==> mailboxes@[t].id@ != id@,
        decreases mailboxes.len() - i,
    {
        if str_eq(mailboxes[i].id.as_str(), id) {
            return Some(mailboxes[i].name.as_str());
        }
        i = i + 1;
    }
    None
}

/// Minimum idle period, in milliseconds, after which the app pings the
/// storage backend.
///
/// Tuned below the tightest common submission timeout (around 120 s
/// behind corporate NAT and cloud firewalls) so the connection stays
/// warm during long reading sessions.
pub const PING_INTERVAL_MILLIS: u64 = 60_000;

/// What one turn of the app loop does once its event poll returns.
#[derive(Debug, Clone, Copy, PartialEq, Eq, Structural)]
pub enum TickAction {
    /// Read and handle the pending event.
    HandleEvent,
    /// Ping the storage backend, the session having idled long enough.
    Ping,
    /// Nothing to do until the next poll.
    Wait,
}

/// The loop's decision after a poll: handle a pending event, otherwise
/// ping once the time since the last network round-trip reaches the
/// interval, otherwise wait.
pub fn tick_action(event_pending: bool, idle_millis: u64) -> (action: TickAction)
    ensures
        action == (if event_pending {
            TickAction::HandleEvent
        } else if idle_millis >= PING_INTERVAL_MILLIS {
            TickAction::Ping
        } else {
            TickAction::Wait
        }),
{
    if event_pending {
        TickAction::HandleEvent
    } else if idle_millis >= PING_INTERVAL_MILLIS {
        TickAction::Ping
    } else {
        TickAction::Wait
    }
}

} // verus!
