//! What becomes of the account the wizard built: the name it is filed
//! under, free among the accounts a configuration already holds.

use vstd::prelude::*;
use vstd::set_lib::*;
use vstd::string::*;

use crate::decimal::{decimal, decimal_string, lemma_decimal_injective};
use crate::text::{trim_end, trim_end_str};

verus! {

/// What a configuration already on disk constrains in a new account.
///
/// Namely the names it cannot take, and whether one of its accounts
/// already claims the default.
pub struct ExistingConfig {
    pub names: Vec<String>,
    pub has_default: bool,
}

/// Whether the account the wizard built claims the default: only when
/// no account of the configuration on disk already does, since a second
/// `default = true` would make the account the CLI picks depend on map
/// ordering.
pub fn claims_default(existing: Option<&ExistingConfig>) -> (claims: bool)
    ensures
        claims == !(existing matches Some(config) && config.has_default),
{
    match existing {
        Some(config) => !config.has_default,
        None => true,
    }
}

/// The names a new account cannot take.
pub open spec fn taken_names(existing: Option<&ExistingConfig>) -> Seq<Seq<char>> {
    match existing {
        Some(config) => config.names@.map_values(|name: String| name@),
        None => Seq::empty(),
    }
}

/// `base` suffixed with `-k`.
pub open spec fn suffixed(base: Seq<char>, k: nat) -> Seq<char> {
    base + seq!['-'] + decimal(k)
}

/// Whether `name` is the name discovery proposes for `base`: `base`
/// itself when free, otherwise `base-k` for the least `k` from 2 whose
/// name is free.
pub open spec fn is_proposed_name(base: Seq<char>, taken: Seq<Seq<char>>, name: Seq<char>) -> bool {
    if !taken.contains(base) {
        name == base
    } else {
        exists|k: nat|
            #![trigger suffixed(base, k)]
            {
                &&& k >= 2
                &&& name == suffixed(base, k)
                &&& !taken.contains(name)
                &&& forall|j: nat| 2 <= j < k ==> taken.contains(#[trigger] suffixed(base, j))
            }
    }
}

/// Distinct suffixes give distinct names.
proof fn lemma_suffixed_injective(base: Seq<char>, a: nat, b: nat)
    requires
        suffixed(base, a) == suffixed(base, b),
    ensures
        a == b,
{
    let off = base.len() + 1;
    assert(suffixed(base, a).subrange(off as int, suffixed(base, a).len() as int) =~= decimal(a));
    assert(suffixed(base, b).subrange(off as int, suffixed(base, b).len() as int) =~= decimal(b));
    lemma_decimal_injective(a, b);
}

/// When every suffix in `2..k` is taken, there are at least `k - 2`
/// taken names.
proof fn lemma_taken_suffixes_bound(base: Seq<char>, taken: Seq<Seq<char>>, k: int)
    requires
        k >= 2,
        forall|j: nat| 2 <= j < k ==> taken.contains(#[trigger] suffixed(base, j)),
    ensures
        k - 2 <= taken.len(),
{
    let range = set_int_range(2, k);
    let f = |j: int| suffixed(base, j as nat);
    lemma_int_range(2, k);
    assert(vstd::relations::injective_on(f, range)) by {
        assert forall|x: int, y: int|
            range.contains(x) && range.contains(y) && #[trigger] f(x) == #[trigger] f(y) implies x
            == y by {
            lemma_suffixed_injective(base, x as nat, y as nat);
        }
    }
    let image = range.map(f);
    lemma_map_size(range, image, f);
    assert(image.subset_of(taken.to_set())) by {
        assert forall|n: Seq<char>| image.contains(n) implies taken.to_set().contains(n) by {
            let j = choose|j: int| range.contains(j) && f(j) == n;
            assert(taken.contains(suffixed(base, j as nat)));
        }
    }
    taken.lemma_cardinality_of_set();
    lemma_len_subset(image, taken.to_set());
}

/// Whether `name` is among `names`.
fn is_taken(names: &Vec<String>, name: &String) -> (b: bool)
    ensures
        b == names@.map_values(|n: String| n@).contains(name@),
{
    let ghost views = names@.map_values(|n: String| n@);
    let mut i: usize = 0;
    while i < names.len()
        invariant
            views == names@.map_values(|n: String| n@),
            i <= names.len(),
            forall|t: int| 0 <= t < i ==> views[t] != name@,
        decreases names.len() - i,
    {
        if names[i] == *name {
            assert(views[i as int] == name@);
            return true;
        }
        i = i + 1;
    }
    false
}

/// The name discovery proposes, suffixed until it is free.
///
/// Not prompted, the name being only the TOML table key. It still has
/// to be free: a second `[accounts.<name>]` table makes the whole
/// document fail to parse, taking the working accounts down with it.
pub fn account_name(base: &str, existing: Option<&ExistingConfig>) -> (name: String)
    ensures
        is_proposed_name(base@, taken_names(existing), name@),
{
    let base_name = base.to_owned();
    let config = match existing {
        None => {
            return base_name;
        },
        Some(config) => config,
    };
    let ghost taken = taken_names(existing);
    if !is_taken(&config.names, &base_name) {
        return base_name;
    }
    let mut suffix: u128 = 2;
    loop
        invariant
            taken == config.names@.map_values(|n: String| n@),
            taken == taken_names(existing),
            taken.contains(base@),
            taken.len() == config.names.len(),
            base_name@ == base@,
            2 <= suffix <= taken.len() + 2,
            forall|j: nat| 2 <= j < suffix ==> taken.contains(#[trigger] suffixed(base@, j)),
        decreases taken.len() + 2 - suffix,
    {
        let mut name = base_name.clone();
        name.append("-");
        let digits = decimal_string(suffix);
        name.append(digits.as_str());
        proof {
            reveal_strlit("-");
            assert(name@ =~= suffixed(base@, suffix as nat));
        }
        if !is_taken(&config.names, &name) {
            assert(is_proposed_name(base@, taken, name@)) by {
                assert(name@ == suffixed(base@, suffix as nat));
            }
            return name;
        }
        proof {
            lemma_taken_suffixes_bound(base@, taken, suffix + 1);
        }
        suffix = suffix + 1;
    }
}

/// What appending a rendered account to an existing configuration file
/// writes: a newline separating the two tables (and ending the file's
/// last line when it lacks one), the document without its trailing
/// white space, and a final newline.
pub fn appended_text(document: &str) -> (text: String)
    ensures
        text@ == "\n"@ + trim_end(document@) + "\n"@,
{
    let mut text = "\n".to_owned();
    text.append(trim_end_str(document));
    text.append("\n");
    proof {
        reveal_strlit("\n");
    }
    text
}

} // verus!
