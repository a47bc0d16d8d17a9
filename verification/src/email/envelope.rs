//! The envelope shape shared across all protocols, the message headers
//! it is read from, and message identifiers as every backend reports
//! them.

use vstd::prelude::*;
use vstd::string::*;

use crate::email::address::{pairs_view, Address};
use crate::text::{trim, trim_str};

verus! {

/// `t` without one enclosing pair of angle brackets, unchanged when it
/// is not enclosed in one.
pub open spec fn strip_angles(t: Seq<char>) -> Seq<char> {
    if t.len() >= 2 && t[0] == '<' && t.last() == '>' {
        t.subrange(1, t.len() - 1)
    } else {
        t
    }
}

/// The normalised form of a raw `Message-ID:` value: trimmed, its
/// angle brackets removed, trimmed again, and `None` when nothing is
/// left.
pub open spec fn normalized_message_id(raw: Seq<char>) -> Option<Seq<char>> {
    let inner = trim(strip_angles(trim(raw)));
    if inner.len() == 0 {
        None
    } else {
        Some(inner)
    }
}

/// Strips the RFC 5322 `msg-id` wrappers from a raw `Message-ID:` value.
///
/// Whitespace and a single pair of angle brackets are removed, an empty
/// result becoming `None`, so that every backend's message id is
/// comparable byte-for-byte.
pub fn normalize_message_id(raw: &str) -> (id: Option<String>)
    ensures
        id.deep_view() == normalized_message_id(raw@),
{
    let trimmed = trim_str(raw);
    let n = trimmed.unicode_len();
    let unwrapped = if n >= 2 && trimmed.get_char(0) == '<' && trimmed.get_char(n - 1) == '>' {
        trimmed.substring_char(1, n - 1)
    } else {
        trimmed
    };
    let inner = trim_str(unwrapped);
    if inner.unicode_len() == 0 {
        None
    } else {
        Some(inner.to_owned())
    }
}


/// What a message's headers give its envelope, as the message parser
/// reads them: `Subject:`, `From:` and `To:` (each entry's display name
/// and address), `Date:` written out in RFC 3339, the number of
/// attachments and `Message-ID:`.
#[derive(Clone, Debug)]
pub struct ParsedHeaders {
    pub subject: Option<String>,
    pub from: Option<Vec<(Option<String>, Option<String>)>>,
    pub to: Option<Vec<(Option<String>, Option<String>)>>,
    pub date: Option<String>,
    pub attachment_count: usize,
    pub message_id: Option<String>,
}

/// An address header by value.
pub open spec fn header_view(h: Option<Vec<(Option<String>, Option<String>)>>) -> Option<
    Seq<(Option<Seq<char>>, Option<Seq<char>>)>,
> {
    match h {
        Some(list) => Some(pairs_view(list@)),
        None => None,
    }
}

/// Parsed headers by value, in the order of the struct's fields.
pub open spec fn headers_view(h: ParsedHeaders) -> (
    Option<Seq<char>>,
    Option<Seq<(Option<Seq<char>>, Option<Seq<char>>)>>,
    Option<Seq<(Option<Seq<char>>, Option<Seq<char>>)>>,
    Option<Seq<char>>,
    usize,
    Option<Seq<char>>,
) {
    (
        h.subject.deep_view(),
        header_view(h.from),
        header_view(h.to),
        h.date.deep_view(),
        h.attachment_count,
        h.message_id.deep_view(),
    )
}

/// What `mail_parser::MessageParser::parse` makes of a raw message, read
/// through `Message::subject`, `from`, `to`, `date` (with
/// `DateTime::to_rfc3339`), `attachment_count` and `message_id`: `None`
/// when it parses nothing. The MIME and RFC 5322 grammars take pages to
/// state, and the result depends on the bytes alone.
pub uninterp spec fn parsed_headers(raw: Seq<u8>) -> Option<
    (
        Option<Seq<char>>,
        Option<Seq<(Option<Seq<char>>, Option<Seq<char>>)>>,
        Option<Seq<(Option<Seq<char>>, Option<Seq<char>>)>>,
        Option<Seq<char>>,
        usize,
        Option<Seq<char>>,
    ),
>;

/// `MessageParser::parse` on a raw message, the headers an envelope
/// needs read off the parsed message.
///
/// Claims that the result is the one `parsed_headers` names for the
/// bytes; nothing more of the message grammar is stated.
#[verifier::external_body]
pub(crate) fn parse_headers(raw: &[u8]) -> (h: Option<ParsedHeaders>)
    ensures
        match h {
            Some(h) => parsed_headers(raw@) == Some(headers_view(h)),
            None => parsed_headers(raw@) is None,
        },
{
    let m = mail_parser::MessageParser::new().parse(raw)?;
    let list = |a: &mail_parser::Address| {
        a.clone().into_list().into_iter().map(|x| (x.name.map(|n| n.into_owned()), x.address.map(|e| e.into_owned()))).collect()
    };
    Some(ParsedHeaders {
        subject: m.subject().map(|t| t.to_string()),
        from: m.from().map(list),
        to: m.to().map(list),
        date: m.date().map(|d| d.to_rfc3339()),
        attachment_count: m.attachment_count(),
        message_id: m.message_id().map(|t| t.to_string()),
    })
}

/// What `chrono::DateTime::parse_from_rfc3339` makes of `text`: `None`
/// when it rejects it, otherwise the instant as seconds since the epoch
/// and nanoseconds, with the offset from UTC in seconds. The grammar and
/// the calendar arithmetic take pages to state, and the result depends
/// on the text alone.
pub uninterp spec fn rfc3339_parse(text: Seq<char>) -> Option<(i64, u32, i32)>;

/// `DateTime::parse_from_rfc3339` on `text`, read back through
/// `timestamp`, `timestamp_subsec_nanos` and the offset's
/// `local_minus_utc`.
///
/// Claims that the result is the one `rfc3339_parse` names for the
/// text.
#[verifier::external_body]
pub(crate) fn parse_rfc3339(text: &str) -> (d: Option<(i64, u32, i32)>)
    ensures
        d == rfc3339_parse(text@),
{
    chrono::DateTime::parse_from_rfc3339(text).ok().map(
        |d| (d.timestamp(), d.timestamp_subsec_nanos(), d.offset().local_minus_utc()),
    )
}

/// A message as a listing shows it.
///
/// The flag type is left to the caller: the backends each map their
/// own flags to one shared set.
#[derive(Clone, Debug)]
pub struct Envelope<F> {
    /// Backend-specific identifier: an IMAP UID, a JMAP or Maildir id.
    pub id: String,
    /// `Message-ID:`, normalised, `None` when missing.
    pub message_id: Option<String>,
    /// Flags set on the message.
    pub flags: Vec<F>,
    /// Subject header value.
    pub subject: String,
    /// Sender(s).
    pub from: Vec<Address>,
    /// Primary recipient(s).
    pub to: Vec<Address>,
    /// `Date:` as an instant (seconds since the epoch, nanoseconds) and
    /// the sender's offset from UTC in seconds; `None` when the header
    /// is missing or unreadable.
    pub date: Option<(i64, u32, i32)>,
    /// Size of the raw message in bytes.
    pub size: u64,
    /// Whether the message has an attachment; `None` when not known.
    pub has_attachment: Option<bool>,
}

} // verus!
