//! Names in lexicographic order of their characters, as error messages
//! list them: the order `str` itself sorts in, UTF-8 preserving the
//! order of code points.

use vstd::prelude::*;
use vstd::relations::sorted_by;
use vstd::string::*;

verus! {

broadcast use vstd::seq_lib::group_to_multiset_ensures;

/// Whether `a` comes no later than `b`: compared character by character,
/// a proper prefix first.
pub open spec fn text_le(a: Seq<char>, b: Seq<char>) -> bool
    decreases a.len(),
{
    if a.len() == 0 {
        true
    } else if b.len() == 0 {
        false
    } else if a[0] != b[0] {
        (a[0] as int) < (b[0] as int)
    } else {
        text_le(a.drop_first(), b.drop_first())
    }
}

/// The ordering relation `text_le` as a value.
pub open spec fn text_order() -> spec_fn(Seq<char>, Seq<char>) -> bool {
    |a: Seq<char>, b: Seq<char>| text_le(a, b)
}

/// The characters of each string.
pub open spec fn texts(v: Seq<String>) -> Seq<Seq<char>> {
    v.map_values(|s: String| s@)
}

/// Any two texts are ordered one way or the other.
pub proof fn lemma_text_le_total(a: Seq<char>, b: Seq<char>)
    ensures
        text_le(a, b) || text_le(b, a),
    decreases a.len(),
{
    if a.len() > 0 && b.len() > 0 {
        if a[0] == b[0] {
            lemma_text_le_total(a.drop_first(), b.drop_first());
        } else {
            assert((a[0] as int) != (b[0] as int));
        }
    }
}

/// The order is transitive.
pub proof fn lemma_text_le_transitive(a: Seq<char>, b: Seq<char>, c: Seq<char>)
    requires
        text_le(a, b),
        text_le(b, c),
    ensures
        text_le(a, c),
    decreases a.len(),
{
    if a.len() > 0 && b.len() > 0 && c.len() > 0 && a[0] == b[0] && b[0] == c[0] {
        lemma_text_le_transitive(a.drop_first(), b.drop_first(), c.drop_first());
    }
}

/// Whether `a` comes no later than `b`.
pub fn str_le(a: &str, b: &str) -> (r: bool)
    ensures
        r == text_le(a@, b@),
{
    let n = a.unicode_len();
    let m = b.unicode_len();
    let mut i: usize = 0;
    assert(a@.skip(0) =~= a@);
    assert(b@.skip(0) =~= b@);
    while i < n && i < m
        invariant
            n == a@.len(),
            m == b@.len(),
            i <= n,
            i <= m,
            text_le(a@, b@) == text_le(a@.skip(i as int), b@.skip(i as int)),
        decreases n - i,
    {
        let x = a.get_char(i);
        let y = b.get_char(i);
        if x != y {
            assert(a@.skip(i as int)[0] == x);
            assert(b@.skip(i as int)[0] == y);
            return (x as u32) < (y as u32);
        }
        assert(a@.skip(i as int).drop_first() =~= a@.skip(i + 1));
        assert(b@.skip(i as int).drop_first() =~= b@.skip(i + 1));
        i = i + 1;
    }
    i == n
}

/// `s` with `x` inserted at `pos` holds what `s` holds, and `x`.
pub(crate) proof fn lemma_insert_multiset<A>(s: Seq<A>, pos: int, x: A)
    requires
        0 <= pos <= s.len(),
    ensures
        s.insert(pos, x).to_multiset() =~= s.to_multiset().insert(x),
{
    let front = s.subrange(0, pos);
    let back = s.subrange(pos, s.len() as int);
    assert(s =~= front + back);
    vstd::seq_lib::lemma_multiset_commutative(front, back);
    vstd::seq_lib::lemma_multiset_commutative(front.push(x), back);
    assert(s.insert(pos, x) =~= front.push(x) + back);
}

/// The names of `items` in lexicographic order.
pub fn sorted_names(items: &Vec<String>) -> (r: Vec<String>)
    ensures
        sorted_by(texts(r@), text_order()),
        texts(r@).to_multiset() =~= texts(items@).to_multiset(),
{
    let mut r: Vec<String> = Vec::new();
    let mut i: usize = 0;
    while i < items.len()
        invariant
            i <= items@.len(),
            sorted_by(texts(r@), text_order()),
            texts(r@).to_multiset() =~= texts(items@.take(i as int)).to_multiset(),
        decreases items@.len() - i,
    {
        let x = items[i].clone();
        let mut pos: usize = 0;
        while pos < r.len()
            invariant
                pos <= r@.len(),
                forall|k: int| 0 <= k < pos ==> text_le(#[trigger] r@[k]@, x@),
            ensures
                pos <= r@.len(),
                forall|k: int| 0 <= k < pos ==> text_le(#[trigger] r@[k]@, x@),
                pos < r@.len() ==> !text_le(r@[pos as int]@, x@),
            decreases r@.len() - pos,
        {
            if !str_le(r[pos].as_str(), x.as_str()) {
                break;
            }
            pos = pos + 1;
        }
        let ghost before = texts(r@);
        proof {
            if pos < r@.len() {
                assert(!text_le(before[pos as int], x@)) by {
                    assert(before[pos as int] == r@[pos as int]@);
                }
            }
        }
        r.insert(pos, x);
        proof {
            let after = texts(r@);
            assert(after =~= before.insert(pos as int, x@));
            assert forall|a: int, b: int| 0 <= a < b < after.len() implies #[trigger] text_order()(
                after[a],
                after[b],
            ) by {
                if a < pos && b == pos {
                    assert(before[a] == r@[a]@);
                } else if a == pos && b > pos {
                    lemma_text_le_total(before[pos as int], x@);
                    if b - 1 > pos {
                        assert(text_order()(before[pos as int], before[b - 1]));
                        lemma_text_le_transitive(x@, before[pos as int], before[b - 1]);
                    }
                } else if a < pos && b > pos {
                    assert(text_order()(before[a], before[b - 1]));
                } else if a > pos {
                    assert(text_order()(before[a - 1], before[b - 1]));
                } else {
                    assert(text_order()(before[a], before[b]));
                }
            }
            lemma_insert_multiset(before, pos as int, x@);
            assert(texts(items@.take(i + 1)) =~= texts(items@.take(i as int)).push(items@[i as int]@));
        }
        i = i + 1;
    }
    assert(items@.take(i as int) =~= items@);
    r
}

} // verus!
