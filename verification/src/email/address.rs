//! The address shape shared across all protocols.

use vstd::prelude::*;

verus! {

/// A mailbox address: an optional display name and the address proper.
#[derive(Clone, Debug, PartialEq, Eq)]
pub struct Address {
    pub name: Option<String>,
    pub email: String,
}

/// An address header's entries, by value: each display name and
/// address.
pub open spec fn pairs_view(list: Seq<(Option<String>, Option<String>)>) -> Seq<
    (Option<Seq<char>>, Option<Seq<char>>),
> {
    list.map_values(|p: (Option<String>, Option<String>)| (p.0.deep_view(), p.1.deep_view()))
}

/// What an address header lists, as display name and address pairs,
/// kept as addresses: those carrying a non-empty address, in order.
pub open spec fn spec_addresses_from(list: Seq<(Option<Seq<char>>, Option<Seq<char>>)>) -> Seq<
    (Option<Seq<char>>, Seq<char>),
>
    decreases list.len(),
{
    if list.len() == 0 {
        Seq::empty()
    } else {
        let rest = spec_addresses_from(list.drop_last());
        match list.last() {
            (name, Some(email)) => if email.len() > 0 {
                rest.push((name, email))
            } else {
                rest
            },
            _ => rest,
        }
    }
}

/// The views of a list of addresses.
pub open spec fn addresses_view(v: Seq<Address>) -> Seq<(Option<Seq<char>>, Seq<char>)> {
    v.map_values(|a: Address| (a.name.deep_view(), a.email@))
}

/// The addresses of a parsed address header, given as its display name
/// and address pairs: an entry without an address, or with an empty
/// one, is a group marker or a malformed mailbox and is dropped.
pub fn addresses_from(list: Vec<(Option<String>, Option<String>)>) -> (addresses: Vec<Address>)
    ensures
        addresses_view(addresses@) =~= spec_addresses_from(pairs_view(list@)),
{
    let ghost initial = list@;
    let mut rest = list;
    let mut addresses: Vec<Address> = Vec::new();
    let mut i: usize = 0;
    assert(initial.len() == rest.len());
    assert(initial.skip(0) =~= initial);
    while rest.len() > 0
        invariant
            i + rest@.len() == initial.len(),
            initial.len() <= usize::MAX,
            rest@ == initial.skip(i as int),
            addresses_view(addresses@) =~= spec_addresses_from(pairs_view(initial.take(i as int))),
        decreases rest.len(),
    {
        let entry = rest.remove(0);
        proof {
            assert(entry == initial[i as int]);
            assert(pairs_view(initial.take(i + 1)).drop_last() =~= pairs_view(initial.take(i as int)));
            assert(rest@ =~= initial.skip(i + 1));
        }
        let ghost before = addresses@;
        match entry {
            (name, Some(email)) => {
                if email.unicode_len() > 0 {
                    let ghost entry_name = name;
                    addresses.push(Address { name, email });
                    assert(addresses_view(addresses@) =~= addresses_view(before).push(
                        (entry_name.deep_view(), initial[i as int].1->0@),
                    ));
                }
            },
            _ => {},
        }
        i = i + 1;
    }
    assert(initial.take(i as int) =~= initial);
    addresses
}

} // verus!
