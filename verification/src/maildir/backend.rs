//! Ordering and pagination of a fully read mailbox listing.

use vstd::prelude::*;
use vstd::relations::sorted_by;

use crate::collation::{lemma_insert_multiset, lemma_text_le_total, lemma_text_le_transitive, str_le, text_le};
use crate::email::address::{addresses_from, addresses_view, spec_addresses_from};
use crate::email::envelope::{
    headers_view, normalize_message_id, normalized_message_id, parse_headers, parse_rfc3339,
    parsed_headers, rfc3339_parse, Envelope, ParsedHeaders,
};
use crate::email::mailbox::Mailbox;
use crate::tui::model::page_count;

verus! {

/// Page `page` (1-indexed) of `size` items: the slice starting after
/// `(page - 1) * size` items, short or empty past the end.
pub open spec fn page_of<T>(items: Seq<T>, page: int, size: int) -> Seq<T> {
    let skip = (page - 1) * size;
    if skip >= items.len() {
        Seq::empty()
    } else if skip + size <= items.len() {
        items.subrange(skip, skip + size)
    } else {
        items.subrange(skip, items.len() as int)
    }
}

/// What `paginate` returns: the whole listing without a page size,
/// nothing for a zero one, otherwise the requested page, a missing or
/// zero page number meaning the first.
pub open spec fn spec_paginate<T>(items: Seq<T>, page: Option<u32>, page_size: Option<u32>) -> Seq<T> {
    match page_size {
        None => items,
        Some(size) => if size == 0 {
            Seq::empty()
        } else {
            let page = match page {
                Some(p) => if p == 0 {
                    1
                } else {
                    p as int
                },
                None => 1,
            };
            page_of(items, page, size as int)
        },
    }
}

/// Whether item `i` of a listing sits on page `i / size + 1`, at
/// offset `i % size`, that page being among the ones the page count
/// names.
pub open spec fn on_its_page<T>(items: Seq<T>, size: u32, i: int) -> bool {
    let page = i / (size as int) + 1;
    &&& 1 <= page <= page_count(size as int, items.len() as int)
    &&& page <= u32::MAX
    &&& spec_paginate(items, Some(page as u32), Some(size))[i % (size as int)] == items[i]
}

/// Item `i` of a listing sits on page `i / size + 1`, at offset
/// `i % size`, and that page is among the ones the page count names.
proof fn lemma_item_on_its_page<T>(items: Seq<T>, size: u32, i: int)
    requires
        size > 0,
        items.len() <= u32::MAX,
        0 <= i < items.len(),
    ensures
        1 <= i / (size as int) + 1 <= page_count(size as int, items.len() as int),
        i / (size as int) + 1 <= u32::MAX,
        spec_paginate(items, Some((i / (size as int) + 1) as u32), Some(size))[i % (size as int)]
            == items[i],
{
    let s = size as int;
    let n = items.len() as int;
    let q = i / s;
    let r = i % s;
    assert(i == q * s + r && 0 <= r < s && q >= 0) by (nonlinear_arith)
        requires
            s > 0,
            i >= 0,
            q == i / s,
            r == i % s,
    ;
    assert(q + 1 <= (n + s - 1) / s) by (nonlinear_arith)
        requires
            i == q * s + r,
            0 <= r < s,
            i < n,
            s > 0,
    ;
    assert(q <= i) by (nonlinear_arith)
        requires
            i == q * s + r,
            r >= 0,
            s >= 1,
            q >= 0,
    ;
    let page = q + 1;
    assert((page - 1) * s == q * s);
    assert(page as u32 as int == page);
    let slice = spec_paginate(items, Some(page as u32), Some(size));
    assert(slice == page_of(items, page, s));
    assert(slice[r] == items[q * s + r]);
}

/// Paging reaches the whole listing and no further: every item sits on
/// one of the pages the page count names, at its offset into that page,
/// the last of those pages holds something, and the page after it is
/// empty.
pub proof fn pages_reach_every_item<T>(items: Seq<T>, size: u32)
    requires
        size > 0,
        items.len() <= u32::MAX,
    ensures
        forall|i: int| 0 <= i < items.len() ==> #[trigger] on_its_page(items, size, i),
        items.len() > 0 ==> page_of(
            items,
            page_count(size as int, items.len() as int),
            size as int,
        ).len() > 0,
        page_of(items, page_count(size as int, items.len() as int) + 1, size as int).len() == 0,
{
    let s = size as int;
    let n = items.len() as int;
    assert forall|i: int| 0 <= i < items.len() implies #[trigger] on_its_page(items, size, i) by {
        lemma_item_on_its_page(items, size, i);
    }
    let pages = page_count(s, n);
    if n > 0 {
        let q = (n + s - 1) / s;
        assert((q - 1) * s < n && q * s >= n && q >= 1) by (nonlinear_arith)
            requires
                n > 0,
                s > 0,
                q == (n + s - 1) / s,
        ;
        assert(pages == q);
    } else {
        assert(pages == 1);
    }
    assert(pages * s >= n) by (nonlinear_arith)
        requires
            pages >= 1,
            s > 0,
            n == 0 || pages == (n + s - 1) / s,
    ;
}


/// 1-indexed in-memory pagination: a `None` page size returns the whole
/// slice, a zero size or a page past the end returns nothing.
pub fn paginate<T>(items: Vec<T>, page: Option<u32>, page_size: Option<u32>) -> (r: Vec<T>)
    ensures
        r@ == spec_paginate(items@, page, page_size),
{
    let size = match page_size {
        None => {
            return items;
        },
        Some(size) => size,
    };
    if size == 0 {
        return Vec::new();
    }
    let page = match page {
        Some(p) => if p == 0 {
            1
        } else {
            p
        },
        None => 1,
    };
    let before: u64 = (page - 1) as u64;
    let width: u64 = size as u64;
    assert(before * width <= 0xffff_ffffu64 * 0xffff_ffffu64) by (nonlinear_arith)
        requires
            before <= 0xffff_ffffu64,
            width <= 0xffff_ffffu64,
    ;
    let skip: u64 = before * width;
    if skip >= items.len() as u64 {
        return Vec::new();
    }
    let mut items = items;
    let mut rest = items.split_off(skip as usize);
    rest.truncate(size as usize);
    rest
}

/// Whether the date `a` is no later than `b`. A date is an instant,
/// seconds since the epoch then nanoseconds; a message without one
/// counts as the oldest.
pub open spec fn date_le(a: Option<(i64, u32)>, b: Option<(i64, u32)>) -> bool {
    match (a, b) {
        (None, _) => true,
        (Some(_), None) => false,
        (Some(x), Some(y)) => x.0 < y.0 || (x.0 == y.0 && x.1 <= y.1),
    }
}

/// Whether dated entry `a` may come before `b` in a newest-first
/// listing.
pub open spec fn newer_first<T>() -> spec_fn((Option<(i64, u32)>, T), (Option<(i64, u32)>, T)) -> bool {
    |a: (Option<(i64, u32)>, T), b: (Option<(i64, u32)>, T)| date_le(b.0, a.0)
}

/// Whether a dated entry carries the date `d`.
pub open spec fn dated<T>(d: Option<(i64, u32)>) -> spec_fn((Option<(i64, u32)>, T)) -> bool {
    |e: (Option<(i64, u32)>, T)| e.0 == d
}

/// Whether `sorted` is `items` newest first: ordered by date, holding
/// the same entries, and keeping the order of entries of one date.
pub open spec fn is_newest_first<T>(sorted: Seq<(Option<(i64, u32)>, T)>, items: Seq<(Option<(i64, u32)>, T)>) -> bool {
    &&& sorted_by(sorted, newer_first())
    &&& sorted.to_multiset() =~= items.to_multiset()
    &&& forall|d: Option<(i64, u32)>| #[trigger] sorted.filter(dated::<T>(d)) == items.filter(dated::<T>(d))
}

fn date_le_exec(a: &Option<(i64, u32)>, b: &Option<(i64, u32)>) -> (r: bool)
    ensures
        r == date_le(*a, *b),
{
    match (a, b) {
        (None, _) => true,
        (Some(_), None) => false,
        (Some(x), Some(y)) => x.0 < y.0 || (x.0 == y.0 && x.1 <= y.1),
    }
}

/// Sorts dated entries newest first, entries of one date keeping their
/// order, as a stable sort by date descending does.
pub fn newest_first<T>(items: Vec<(Option<(i64, u32)>, T)>) -> (r: Vec<(Option<(i64, u32)>, T)>)
    ensures
        is_newest_first(r@, items@),
{
    broadcast use vstd::seq_lib::group_filter_ensures, vstd::seq_lib::group_to_multiset_ensures;

    let ghost initial = items@;
    let mut rest = items;
    let mut r: Vec<(Option<(i64, u32)>, T)> = Vec::new();
    let mut i: usize = 0;
    assert(initial.len() == rest.len());
    proof {
        reveal(Seq::filter);
        assert(initial.skip(0) =~= initial);
        assert(initial.take(0) =~= Seq::<(Option<(i64, u32)>, T)>::empty());
    }
    while rest.len() > 0
        invariant
            i + rest@.len() == initial.len(),
            initial.len() <= usize::MAX,
            rest@ == initial.skip(i as int),
            sorted_by(r@, newer_first()),
            r@.to_multiset() =~= initial.take(i as int).to_multiset(),
            forall|d: Option<(i64, u32)>| #[trigger] r@.filter(dated::<T>(d)) == initial.take(i as int).filter(dated::<T>(d)),
        decreases rest.len(),
    {
        let x = rest.remove(0);
        let mut pos: usize = 0;
        while pos < r.len()
            invariant
                pos <= r@.len(),
                forall|k: int| 0 <= k < pos ==> date_le(x.0, (#[trigger] r@[k]).0),
            ensures
                pos <= r@.len(),
                forall|k: int| 0 <= k < pos ==> date_le(x.0, (#[trigger] r@[k]).0),
                pos < r@.len() ==> !date_le(x.0, r@[pos as int].0),
            decreases r@.len() - pos,
        {
            if !date_le_exec(&x.0, &r[pos].0) {
                break;
            }
            pos = pos + 1;
        }
        let ghost before = r@;
        let ghost xv = x;
        r.insert(pos, x);
        proof {
            let after = r@;
            let front = before.subrange(0, pos as int);
            let back = before.subrange(pos as int, before.len() as int);
            assert(after =~= front.push(xv) + back);
            assert(before =~= front + back);
            assert forall|k: int| pos <= k < before.len() implies !date_le(xv.0, (#[trigger] before[k]).0) by {
                if k > pos {
                    assert(newer_first::<T>()(before[pos as int], before[k]));
                }
            }
            assert forall|a: int, b: int| 0 <= a < b < after.len() implies #[trigger] newer_first::<T>()(
                after[a],
                after[b],
            ) by {
                if a < pos && b == pos {
                } else if a == pos && b > pos {
                } else if a < pos && b > pos {
                    assert(newer_first::<T>()(before[a], before[b - 1]));
                } else if a > pos {
                    assert(newer_first::<T>()(before[a - 1], before[b - 1]));
                } else {
                    assert(newer_first::<T>()(before[a], before[b]));
                }
            }
            lemma_insert_multiset(before, pos as int, xv);
            assert(initial[i as int] == xv);
            assert(initial.take(i + 1) =~= initial.take(i as int).push(xv));
            initial.take(i as int).to_multiset_ensures();
            assert(initial.take(i as int).push(xv).to_multiset() =~= initial.take(
                i as int,
            ).to_multiset().insert(xv));
            assert(after.to_multiset() =~= initial.take(i + 1).to_multiset());
            assert forall|d: Option<(i64, u32)>| #[trigger] after.filter(dated::<T>(d)) == initial.take(i + 1).filter(dated::<T>(d)) by {
                let p = dated::<T>(d);
                vstd::seq::Seq::filter_distributes_over_add(front.push(xv), back, p);
                vstd::seq::Seq::filter_distributes_over_add(front, back, p);
                front.lemma_filter_push(xv, p);
                initial.take(i as int).lemma_filter_push(xv, p);
                if d == xv.0 {
                    assert forall|k: int| 0 <= k < back.len() implies !p(#[trigger] back[k]) by {
                        assert(back[k] == before[pos + k]);
                    }
                    back.lemma_all_neg_filter_empty(p);
                    assert(back.filter(p) =~= Seq::<(Option<(i64, u32)>, T)>::empty());
                }
            }
            assert(rest@ =~= initial.skip(i + 1));
        }
        i = i + 1;
    }
    assert(initial.take(i as int) =~= initial);
    r
}

/// The number of envelopes a listing reports: its length, capped at
/// `u32::MAX`.
pub open spec fn listing_total(len: int) -> u32 {
    if len <= u32::MAX {
        len as u32
    } else {
        u32::MAX
    }
}

/// One page of a mailbox read in full: its dated envelopes newest first
/// (a message without a date last), then paginated; with the number of
/// envelopes the mailbox holds. The whole mailbox being read, the count
/// is exact.
pub fn envelope_page<T>(items: Vec<(Option<(i64, u32)>, T)>, page: Option<u32>, page_size: Option<u32>) -> (r: (Vec<(Option<(i64, u32)>, T)>, u32))
    ensures
        r.1 == listing_total(items@.len() as int),
        exists|sorted: Seq<(Option<(i64, u32)>, T)>|
            is_newest_first(sorted, items@) && r.0@ == spec_paginate(sorted, page, page_size),
{
    let n = items.len();
    let total: u32 = if n <= 0xffff_ffffusize {
        n as u32
    } else {
        0xffff_ffffu32
    };
    let sorted = newest_first(items);
    let ghost s = sorted@;
    let page_items = paginate(sorted, page, page_size);
    assert(is_newest_first(s, items@) && page_items@ == spec_paginate(s, page, page_size));
    (page_items, total)
}

/// Whether mailbox `a` may come before `b` in a listing sorted by name.
pub open spec fn by_name() -> spec_fn(Mailbox, Mailbox) -> bool {
    |a: Mailbox, b: Mailbox| text_le(a.name@, b.name@)
}

/// Whether a mailbox carries the name `n`.
pub open spec fn named(n: Seq<char>) -> spec_fn(Mailbox) -> bool {
    |m: Mailbox| m.name@ == n
}

/// Whether `sorted` is `mailboxes` in name order: sorted, holding the
/// same mailboxes, mailboxes of one name keeping their order.
pub open spec fn is_by_name(sorted: Seq<Mailbox>, mailboxes: Seq<Mailbox>) -> bool {
    &&& sorted_by(sorted, by_name())
    &&& sorted.to_multiset() =~= mailboxes.to_multiset()
    &&& forall|n: Seq<char>| #[trigger] sorted.filter(named(n)) == mailboxes.filter(named(n))
}

/// Sorts a mailbox listing by name, as a stable sort does.
pub fn sort_by_name(mailboxes: Vec<Mailbox>) -> (r: Vec<Mailbox>)
    ensures
        is_by_name(r@, mailboxes@),
{
    broadcast use vstd::seq_lib::group_filter_ensures;

    let ghost initial = mailboxes@;
    let mut rest = mailboxes;
    let mut r: Vec<Mailbox> = Vec::new();
    let mut i: usize = 0;
    assert(initial.len() == rest.len());
    proof {
        reveal(Seq::filter);
        assert(initial.skip(0) =~= initial);
        assert(initial.take(0) =~= Seq::<Mailbox>::empty());
    }
    while rest.len() > 0
        invariant
            i + rest@.len() == initial.len(),
            initial.len() <= usize::MAX,
            rest@ == initial.skip(i as int),
            sorted_by(r@, by_name()),
            r@.to_multiset() =~= initial.take(i as int).to_multiset(),
            forall|n: Seq<char>| #[trigger] r@.filter(named(n)) == initial.take(i as int).filter(named(n)),
        decreases rest.len(),
    {
        let x = rest.remove(0);
        let mut pos: usize = 0;
        while pos < r.len()
            invariant
                pos <= r@.len(),
                forall|k: int| 0 <= k < pos ==> text_le((#[trigger] r@[k]).name@, x.name@),
            ensures
                pos <= r@.len(),
                forall|k: int| 0 <= k < pos ==> text_le((#[trigger] r@[k]).name@, x.name@),
                pos < r@.len() ==> !text_le(r@[pos as int].name@, x.name@),
            decreases r@.len() - pos,
        {
            if !str_le(r[pos].name.as_str(), x.name.as_str()) {
                break;
            }
            pos = pos + 1;
        }
        let ghost before = r@;
        let ghost xv = x;
        r.insert(pos, x);
        proof {
            let after = r@;
            let front = before.subrange(0, pos as int);
            let back = before.subrange(pos as int, before.len() as int);
            assert(after =~= front.push(xv) + back);
            assert(before =~= front + back);
            if pos < before.len() {
                lemma_text_le_total(before[pos as int].name@, xv.name@);
            }
            assert forall|k: int| pos <= k < before.len() implies text_le(
                xv.name@,
                (#[trigger] before[k]).name@,
            ) && xv.name@ != before[k].name@ by {
                if k > pos {
                    assert(by_name()(before[pos as int], before[k]));
                    lemma_text_le_transitive(xv.name@, before[pos as int].name@, before[k].name@);
                    if xv.name@ == before[k].name@ {
                        lemma_text_le_transitive(
                            before[pos as int].name@,
                            before[k].name@,
                            xv.name@,
                        );
                    }
                }
            }
            assert forall|a: int, b: int| 0 <= a < b < after.len() implies #[trigger] by_name()(
                after[a],
                after[b],
            ) by {
                if a < pos && b == pos {
                } else if a == pos && b > pos {
                    assert(text_le(xv.name@, before[b - 1].name@));
                } else if a < pos && b > pos {
                    assert(by_name()(before[a], before[b - 1]));
                } else if a > pos {
                    assert(by_name()(before[a - 1], before[b - 1]));
                } else {
                    assert(by_name()(before[a], before[b]));
                }
            }
            lemma_insert_multiset(before, pos as int, xv);
            assert(initial[i as int] == xv);
            assert(initial.take(i + 1) =~= initial.take(i as int).push(xv));
            initial.take(i as int).to_multiset_ensures();
            assert(after.to_multiset() =~= initial.take(i + 1).to_multiset());
            assert forall|n: Seq<char>| #[trigger] after.filter(named(n)) == initial.take(i + 1).filter(
                named(n),
            ) by {
                let p = named(n);
                vstd::seq::Seq::filter_distributes_over_add(front.push(xv), back, p);
                vstd::seq::Seq::filter_distributes_over_add(front, back, p);
                front.lemma_filter_push(xv, p);
                initial.take(i as int).lemma_filter_push(xv, p);
                if n == xv.name@ {
                    assert forall|k: int| 0 <= k < back.len() implies !p(#[trigger] back[k]) by {
                        assert(back[k] == before[pos + k]);
                    }
                    back.lemma_all_neg_filter_empty(p);
                    assert(back.filter(p) =~= Seq::<Mailbox>::empty());
                }
            }
            assert(rest@ =~= initial.skip(i + 1));
        }
        i = i + 1;
    }
    assert(initial.take(i as int) =~= initial);
    r
}


/// An envelope's fields but its flags, by value: id, subject, senders,
/// recipients, date, size, attachment presence and message id.
pub open spec fn envelope_view<F>(e: Envelope<F>) -> (
    Seq<char>,
    Seq<char>,
    Seq<(Option<Seq<char>>, Seq<char>)>,
    Seq<(Option<Seq<char>>, Seq<char>)>,
    Option<(i64, u32, i32)>,
    u64,
    Option<bool>,
    Option<Seq<char>>,
) {
    (
        e.id@,
        e.subject@,
        addresses_view(e.from@),
        addresses_view(e.to@),
        e.date,
        e.size,
        e.has_attachment,
        e.message_id.deep_view(),
    )
}

/// The addresses an optional address header lists, none without one.
pub open spec fn header_addresses(h: Option<Seq<(Option<Seq<char>>, Option<Seq<char>>)>>) -> Seq<
    (Option<Seq<char>>, Seq<char>),
> {
    match h {
        Some(list) => spec_addresses_from(list),
        None => Seq::empty(),
    }
}

/// The envelope of a message from its id, size and parsed headers: the
/// id (empty without one), the subject (empty without one), the
/// addresses of `From:` and `To:`, the `Date:` read as RFC 3339, whether
/// it has an attachment, and its normalised message id; a message that
/// did not parse has nothing but its id and size.
pub open spec fn spec_envelope(
    id: Option<Seq<char>>,
    size: u64,
    headers: Option<
        (
            Option<Seq<char>>,
            Option<Seq<(Option<Seq<char>>, Option<Seq<char>>)>>,
            Option<Seq<(Option<Seq<char>>, Option<Seq<char>>)>>,
            Option<Seq<char>>,
            usize,
            Option<Seq<char>>,
        ),
    >,
) -> (
    Seq<char>,
    Seq<char>,
    Seq<(Option<Seq<char>>, Seq<char>)>,
    Seq<(Option<Seq<char>>, Seq<char>)>,
    Option<(i64, u32, i32)>,
    u64,
    Option<bool>,
    Option<Seq<char>>,
) {
    let id = match id {
        Some(i) => i,
        None => Seq::empty(),
    };
    match headers {
        None => (id, Seq::empty(), Seq::empty(), Seq::empty(), None, size, None, None),
        Some((subject, from, to, date, attachments, message_id)) => (
            id,
            match subject {
                Some(t) => t,
                None => Seq::empty(),
            },
            header_addresses(from),
            header_addresses(to),
            match date {
                Some(t) => rfc3339_parse(t),
                None => None,
            },
            size,
            Some(attachments > 0),
            match message_id {
                Some(m) => normalized_message_id(m),
                None => None,
            },
        ),
    }
}

fn header_addresses_exec(h: Option<Vec<(Option<String>, Option<String>)>>) -> (a: Vec<crate::email::address::Address>)
    ensures
        addresses_view(a@) == header_addresses(crate::email::envelope::header_view(h)),
{
    match h {
        Some(list) => addresses_from(list),
        None => Vec::new(),
    }
}

/// Folds a message's id, size, flags and parsed headers into its
/// envelope.
pub fn envelope_from_entry<F>(
    id: Option<String>,
    size: u64,
    flags: Vec<F>,
    headers: Option<ParsedHeaders>,
) -> (e: Envelope<F>)
    ensures
        envelope_view(e) == spec_envelope(
            id.deep_view(),
            size,
            match headers {
                Some(h) => Some(headers_view(h)),
                None => None,
            },
        ),
        e.flags@ == flags@,
{
    let id = match id {
        Some(i) => i,
        None => String::new(),
    };
    match headers {
        None => Envelope {
            id,
            message_id: None,
            flags,
            subject: String::new(),
            from: Vec::new(),
            to: Vec::new(),
            date: None,
            size,
            has_attachment: None,
        },
        Some(h) => {
            let subject = match h.subject {
                Some(t) => t,
                None => String::new(),
            };
            let date = match &h.date {
                Some(t) => parse_rfc3339(t.as_str()),
                None => None,
            };
            let message_id = match &h.message_id {
                Some(m) => normalize_message_id(m.as_str()),
                None => None,
            };
            let has_attachment = Some(h.attachment_count > 0);
            Envelope {
                id,
                message_id,
                flags,
                subject,
                from: header_addresses_exec(h.from),
                to: header_addresses_exec(h.to),
                date,
                size,
                has_attachment,
            }
        },
    }
}

/// The envelope of a message read in full: its headers parsed from the
/// raw bytes, its size their length.
pub fn envelope_from_message<F>(id: Option<String>, raw: &[u8], flags: Vec<F>) -> (e: Envelope<F>)
    ensures
        envelope_view(e) == spec_envelope(id.deep_view(), raw@.len() as u64, parsed_headers(raw@)),
        e.flags@ == flags@,
{
    let size = raw.len() as u64;
    let headers = parse_headers(raw);
    envelope_from_entry(id, size, flags, headers)
}

} // verus!
