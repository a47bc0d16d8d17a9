//! Reading order of a rendered `[accounts.<name>]` block.
//!
//! The emitter writes a header line, then one dotted key per line in
//! alphabetical order. The block is regrouped by top-level key, the
//! groups ordered as the himalaya CLI orders them, and each group's
//! `server` line lifted to its top.

use vstd::prelude::*;
use vstd::string::*;

use crate::text::{
    find_char, first_pos, has_infix, has_prefix, is_blank, lemma_first_pos, occurs_at, starts_with,
    str_eq, trim,
};

verus! {

/// `l` without one trailing carriage return.
pub open spec fn strip_cr(l: Seq<char>) -> Seq<char> {
    if l.len() > 0 && l.last() == '\r' {
        l.drop_last()
    } else {
        l
    }
}

/// The lines `str::lines` yields for `s`: split at each `\n`, a `\r`
/// before it dropped, no empty line after a final `\n`.
pub open spec fn lines_of(s: Seq<char>) -> Seq<Seq<char>>
    decreases s.len(),
{
    if s.len() == 0 {
        Seq::empty()
    } else if first_pos(s, '\n') >= s.len() {
        seq![s]
    } else {
        proof {
            lemma_first_pos(s, '\n');
        }
        seq![strip_cr(s.subrange(0, first_pos(s, '\n')))] + lines_of(
            s.subrange(first_pos(s, '\n') + 1, s.len() as int),
        )
    }
}

/// Whether a line holds more than white space.
pub open spec fn non_blank() -> spec_fn(Seq<char>) -> bool {
    |l: Seq<char>| trim(l).len() > 0
}

/// The non-blank lines of `body`, in order.
pub open spec fn kept_lines(body: Seq<char>) -> Seq<Seq<char>> {
    lines_of(body).filter(non_blank())
}

/// Length of a line's top-level key: up to its first `.` or space.
pub open spec fn key_len(l: Seq<char>) -> int {
    if first_pos(l, '.') <= first_pos(l, ' ') {
        first_pos(l, '.')
    } else {
        first_pos(l, ' ')
    }
}

/// A line's top-level key, the first item `split(['.', ' '])` yields.
pub open spec fn key_of(l: Seq<char>) -> Seq<char> {
    l.subrange(0, key_len(l))
}

/// The distinct keys of `lines`, in order of first appearance.
pub open spec fn first_keys(lines: Seq<Seq<char>>) -> Seq<Seq<char>>
    decreases lines.len(),
{
    if lines.len() == 0 {
        Seq::empty()
    } else {
        let keys = first_keys(lines.drop_last());
        let key = key_of(lines.last());
        if keys.contains(key) {
            keys
        } else {
            keys.push(key)
        }
    }
}

/// Position of a key in the order the himalaya CLI writes an account
/// in, most defining first; an unlisted key comes after all of them.
pub open spec fn render_rank(k: Seq<char>) -> int {
    if k == "default"@ {
        0
    } else if k == "email"@ {
        1
    } else if k == "display-name"@ {
        2
    } else if k == "signature"@ {
        3
    } else if k == "signature-delim"@ {
        4
    } else if k == "imap"@ {
        5
    } else if k == "jmap"@ {
        6
    } else if k == "maildir"@ {
        7
    } else if k == "smtp"@ {
        8
    } else if k == "mailbox"@ {
        9
    } else {
        10
    }
}

/// Whether a key sits at rank `r`.
pub open spec fn ranked(r: int) -> spec_fn(Seq<char>) -> bool {
    |k: Seq<char>| render_rank(k) == r
}

/// The keys of the ranks below `r`, rank by rank, each rank keeping the
/// order of first appearance: a stable sort by rank.
pub open spec fn ordered_upto(keys: Seq<Seq<char>>, r: int) -> Seq<Seq<char>>
    decreases r,
{
    if r <= 0 {
        Seq::empty()
    } else {
        ordered_upto(keys, r - 1) + keys.filter(ranked(r - 1))
    }
}

/// Every key, stably sorted by rank.
pub open spec fn ordered_keys(keys: Seq<Seq<char>>) -> Seq<Seq<char>> {
    ordered_upto(keys, 11)
}

/// The `server` line prefix of group `k`.
pub open spec fn server_prefix(k: Seq<char>) -> Seq<char> {
    k + ".server "@
}

/// Whether a line is the `server` line of group `k`.
pub open spec fn server_line(k: Seq<char>) -> spec_fn(Seq<char>) -> bool {
    |l: Seq<char>| key_of(l) == k && has_prefix(l, server_prefix(k))
}

/// Whether a line belongs to group `k` without being its `server` line.
pub open spec fn other_line(k: Seq<char>) -> spec_fn(Seq<char>) -> bool {
    |l: Seq<char>| key_of(l) == k && !has_prefix(l, server_prefix(k))
}

/// Lines, each followed by a newline.
pub open spec fn lines_text(ls: Seq<Seq<char>>) -> Seq<char>
    decreases ls.len(),
{
    if ls.len() == 0 {
        Seq::empty()
    } else {
        lines_text(ls.drop_last()) + ls.last() + seq!['\n']
    }
}

/// Group `k` of `kept`: its `server` line first, then its other lines,
/// each in the order the emitter wrote them.
pub open spec fn group_text(kept: Seq<Seq<char>>, k: Seq<char>) -> Seq<char> {
    lines_text(kept.filter(server_line(k))) + lines_text(kept.filter(other_line(k)))
}

/// The groups of `keys`, in that order, separated by blank lines.
pub open spec fn join_groups(kept: Seq<Seq<char>>, keys: Seq<Seq<char>>) -> Seq<char>
    decreases keys.len(),
{
    if keys.len() == 0 {
        Seq::empty()
    } else if keys.len() == 1 {
        group_text(kept, keys[0])
    } else {
        join_groups(kept, keys.drop_last()) + seq!['\n'] + group_text(kept, keys.last())
    }
}

/// The rendered block in reading order: the header line unchanged, then
/// the non-blank lines grouped by key, the groups stably sorted by rank
/// and separated by a blank line, each group's `server` line first. A
/// document without a newline is returned unchanged.
pub open spec fn spec_layout(rendered: Seq<char>) -> Seq<char> {
    let p = first_pos(rendered, '\n');
    if p >= rendered.len() {
        rendered
    } else {
        let header = rendered.subrange(0, p);
        let kept = kept_lines(rendered.subrange(p + 1, rendered.len() as int));
        header + seq!['\n'] + join_groups(kept, ordered_keys(first_keys(kept)))
    }
}

/// The lines below a rendered block's header line.
pub open spec fn block_body(rendered: Seq<char>) -> Seq<char> {
    rendered.subrange(first_pos(rendered, '\n') + 1, rendered.len() as int)
}

proof fn lemma_infix_self(p: Seq<char>)
    ensures
        has_infix(p, p),
{
    assert(p.subrange(0, p.len() as int) =~= p);
    assert(occurs_at(p, p, 0));
}

proof fn lemma_infix_left(a: Seq<char>, b: Seq<char>, p: Seq<char>)
    requires
        has_infix(a, p),
    ensures
        has_infix(a + b, p),
{
    let i = choose|i: int| occurs_at(a, p, i);
    assert((a + b).subrange(i, i + p.len()) =~= a.subrange(i, i + p.len()));
    assert(occurs_at(a + b, p, i));
}

proof fn lemma_infix_right(a: Seq<char>, b: Seq<char>, p: Seq<char>)
    requires
        has_infix(b, p),
    ensures
        has_infix(a + b, p),
{
    let i = choose|i: int| occurs_at(b, p, i);
    assert((a + b).subrange(a.len() + i, a.len() + i + p.len()) =~= b.subrange(i, i + p.len()));
    assert(occurs_at(a + b, p, a.len() + i));
}

proof fn lemma_infix_trans(x: Seq<char>, y: Seq<char>, z: Seq<char>)
    requires
        has_infix(x, y),
        has_infix(y, z),
    ensures
        has_infix(x, z),
{
    let i = choose|i: int| occurs_at(x, y, i);
    let j = choose|j: int| occurs_at(y, z, j);
    assert(x.subrange(i + j, i + j + z.len()) =~= y.subrange(j, j + z.len()));
    assert(occurs_at(x, z, i + j));
}

/// Each line of `ls`, with its newline, occurs in `lines_text(ls)`.
proof fn lemma_lines_text_has(ls: Seq<Seq<char>>, j: int)
    requires
        0 <= j < ls.len(),
    ensures
        has_infix(lines_text(ls), ls[j] + seq!['\n']),
    decreases ls.len(),
{
    let front = lines_text(ls.drop_last());
    assert(lines_text(ls) =~= front + (ls.last() + seq!['\n']));
    if j == ls.len() - 1 {
        lemma_infix_self(ls.last() + seq!['\n']);
        lemma_infix_right(front, ls.last() + seq!['\n'], ls[j] + seq!['\n']);
    } else {
        lemma_lines_text_has(ls.drop_last(), j);
        assert(ls.drop_last()[j] == ls[j]);
        lemma_infix_left(front, ls.last() + seq!['\n'], ls[j] + seq!['\n']);
    }
}

/// Each group of `ks` occurs in their join.
proof fn lemma_join_has(kept: Seq<Seq<char>>, ks: Seq<Seq<char>>, j: int)
    requires
        0 <= j < ks.len(),
    ensures
        has_infix(join_groups(kept, ks), group_text(kept, ks[j])),
    decreases ks.len(),
{
    if ks.len() == 1 {
        lemma_infix_self(group_text(kept, ks[0]));
    } else {
        let front = join_groups(kept, ks.drop_last()) + seq!['\n'];
        assert(join_groups(kept, ks) == front + group_text(kept, ks.last()));
        if j == ks.len() - 1 {
            lemma_infix_self(group_text(kept, ks[j]));
            lemma_infix_right(front, group_text(kept, ks.last()), group_text(kept, ks[j]));
        } else {
            lemma_join_has(kept, ks.drop_last(), j);
            assert(ks.drop_last()[j] == ks[j]);
            lemma_infix_left(join_groups(kept, ks.drop_last()), seq!['\n'], group_text(kept, ks[j]));
            lemma_infix_left(front, group_text(kept, ks.last()), group_text(kept, ks[j]));
        }
    }
}

/// The key of every line is among the first keys.
proof fn lemma_first_keys_has(lines: Seq<Seq<char>>, j: int)
    requires
        0 <= j < lines.len(),
    ensures
        first_keys(lines).contains(key_of(lines[j])),
    decreases lines.len(),
{
    let ks = first_keys(lines.drop_last());
    let k = key_of(lines.last());
    if j == lines.len() - 1 {
        if !ks.contains(k) {
            assert(ks.push(k)[ks.len() as int] == k);
        }
    } else {
        lemma_first_keys_has(lines.drop_last(), j);
        assert(lines.drop_last()[j] == lines[j]);
        if !ks.contains(k) {
            let t = choose|t: int| 0 <= t < ks.len() && ks[t] == key_of(lines[j]);
            assert(ks.push(k)[t] == key_of(lines[j]));
        }
    }
}

/// A key ranked below `r` is among the keys ordered up to rank `r`.
proof fn lemma_ordered_has(keys: Seq<Seq<char>>, k: Seq<char>, r: int)
    requires
        keys.contains(k),
        0 <= render_rank(k) < r,
    ensures
        ordered_upto(keys, r).contains(k),
    decreases r,
{
    let front = ordered_upto(keys, r - 1);
    let rank_keys = keys.filter(ranked(r - 1));
    if render_rank(k) == r - 1 {
        let t = choose|t: int| 0 <= t < keys.len() && keys[t] == k;
        keys.lemma_filter_contains(ranked(r - 1), t);
        let u = choose|u: int| 0 <= u < rank_keys.len() && rank_keys[u] == k;
        assert((front + rank_keys)[front.len() + u] == k);
    } else {
        lemma_ordered_has(keys, k, r - 1);
        let u = choose|u: int| 0 <= u < front.len() && front[u] == k;
        assert((front + rank_keys)[u] == k);
    }
}

/// A rendered block loses nothing to its layout: the header line comes
/// first, and every non-blank line below it is still there, followed by
/// its newline, whatever its key. A key outside the known order still
/// renders, after the listed ones.
pub proof fn layout_keeps_every_line(rendered: Seq<char>)
    requires
        first_pos(rendered, '\n') < rendered.len(),
    ensures
        has_prefix(
            spec_layout(rendered),
            rendered.subrange(0, first_pos(rendered, '\n')) + seq!['\n'],
        ),
        forall|l: Seq<char>|
            kept_lines(block_body(rendered)).contains(l) ==> has_infix(
                #[trigger] spec_layout(rendered),
                l + seq!['\n'],
            ),
{
    lemma_first_pos(rendered, '\n');
    let p = first_pos(rendered, '\n');
    let header = rendered.subrange(0, p) + seq!['\n'];
    let kept = kept_lines(block_body(rendered));
    let keys = first_keys(kept);
    let joined = join_groups(kept, ordered_keys(keys));
    assert(spec_layout(rendered) == header + joined);
    assert((header + joined).subrange(0, header.len() as int) =~= header);
    assert forall|l: Seq<char>| kept.contains(l) implies has_infix(
        spec_layout(rendered),
        l + seq!['\n'],
    ) by {
        let j = choose|j: int| 0 <= j < kept.len() && kept[j] == l;
        let k = key_of(l);
        lemma_first_keys_has(kept, j);
        lemma_ordered_has(keys, k, 11);
        let ordered = ordered_keys(keys);
        let t = choose|t: int| 0 <= t < ordered.len() && ordered[t] == k;
        lemma_join_has(kept, ordered, t);
        let server = kept.filter(server_line(k));
        let other = kept.filter(other_line(k));
        if has_prefix(l, server_prefix(k)) {
            kept.lemma_filter_contains(server_line(k), j);
            let u = choose|u: int| 0 <= u < server.len() && server[u] == l;
            lemma_lines_text_has(server, u);
            lemma_infix_left(lines_text(server), lines_text(other), l + seq!['\n']);
        } else {
            kept.lemma_filter_contains(other_line(k), j);
            let u = choose|u: int| 0 <= u < other.len() && other[u] == l;
            lemma_lines_text_has(other, u);
            lemma_infix_right(lines_text(server), lines_text(other), l + seq!['\n']);
        }
        lemma_infix_trans(joined, group_text(kept, k), l + seq!['\n']);
        lemma_infix_right(header, joined, l + seq!['\n']);
    }
}

/// The views of a vector of slices.
pub open spec fn views(v: Seq<&str>) -> Seq<Seq<char>> {
    v.map_values(|l: &str| l@)
}

/// `l` without one trailing carriage return.
fn strip_cr_str(l: &str) -> (r: &str)
    ensures
        r@ == strip_cr(l@),
{
    let n = l.unicode_len();
    if n > 0 && l.get_char(n - 1) == '\r' {
        l.substring_char(0, n - 1)
    } else {
        l
    }
}

/// The non-blank lines of `body`.
fn kept_lines_of<'a>(body: &'a str) -> (kept: Vec<&'a str>)
    ensures
        views(kept@) == kept_lines(body@),
{
    let mut rest: &'a str = body;
    let mut kept: Vec<&'a str> = Vec::new();
    let ghost mut all: Seq<Seq<char>> = Seq::empty();
    proof {
        reveal(Seq::filter);
    }
    while rest.unicode_len() > 0
        invariant
            lines_of(body@) == all + lines_of(rest@),
            views(kept@) == all.filter(non_blank()),
        decreases rest@.len(),
    {
        let n = rest.unicode_len();
        let p = find_char(rest, '\n');
        proof {
            lemma_first_pos(rest@, '\n');
            reveal_strlit("");
        }
        let line: &'a str;
        let next: &'a str;
        if p == n {
            line = rest;
            next = "";
            assert(lines_of(rest@) == seq![rest@]);
            assert(lines_of(next@) == Seq::<Seq<char>>::empty());
        } else {
            let raw = rest.substring_char(0, p);
            line = strip_cr_str(raw);
            next = rest.substring_char(p + 1, n);
        }
        assert(lines_of(rest@) == seq![line@] + lines_of(next@));
        let ghost before = views(kept@);
        if !is_blank(line) {
            kept.push(line);
        }
        proof {
            reveal(Seq::filter);
            let all2 = all.push(line@);
            assert(all2.drop_last() =~= all);
            assert(all + (seq![line@] + lines_of(next@)) =~= all2 + lines_of(next@));
            if trim(line@).len() > 0 {
                assert(views(kept@) =~= before.push(line@));
            } else {
                assert(views(kept@) =~= before);
            }
            all = all2;
        }
        rest = next;
    }
    assert(lines_of(rest@) == Seq::<Seq<char>>::empty());
    assert(all + Seq::<Seq<char>>::empty() =~= all);
    kept
}

/// A line's top-level key.
fn key_str(line: &str) -> (key: &str)
    ensures
        key@ == key_of(line@),
{
    let dot = find_char(line, '.');
    let space = find_char(line, ' ');
    proof {
        lemma_first_pos(line@, '.');
        lemma_first_pos(line@, ' ');
    }
    let end = if dot <= space {
        dot
    } else {
        space
    };
    line.substring_char(0, end)
}

/// Whether `key` is among `keys`.
fn holds_key(keys: &Vec<&str>, key: &str) -> (b: bool)
    ensures
        b == views(keys@).contains(key@),
{
    let mut i: usize = 0;
    while i < keys.len()
        invariant
            i <= keys.len(),
            forall|t: int| 0 <= t < i ==> views(keys@)[t] != key@,
        decreases keys.len() - i,
    {
        if str_eq(keys[i], key) {
            assert(views(keys@)[i as int] == key@);
            return true;
        }
        i = i + 1;
    }
    false
}

/// The distinct keys of `kept`, in order of first appearance.
fn first_keys_of<'a>(kept: &Vec<&'a str>) -> (keys: Vec<&'a str>)
    ensures
        views(keys@) == first_keys(views(kept@)),
{
    let mut keys: Vec<&'a str> = Vec::new();
    let mut i: usize = 0;
    while i < kept.len()
        invariant
            i <= kept.len(),
            views(keys@) == first_keys(views(kept@).take(i as int)),
        decreases kept.len() - i,
    {
        let key = key_str(kept[i]);
        let ghost before = views(keys@);
        proof {
            let lines = views(kept@).take(i + 1);
            assert(lines.drop_last() =~= views(kept@).take(i as int));
            assert(lines.last() == kept@[i as int]@);
        }
        if !holds_key(&keys, key) {
            keys.push(key);
            assert(views(keys@) =~= before.push(key@));
        }
        i = i + 1;
    }
    assert(views(kept@).take(kept.len() as int) =~= views(kept@));
    keys
}

/// Rank of a key in the CLI's order.
fn rank_of(k: &str) -> (r: usize)
    ensures
        r == render_rank(k@),
{
    if str_eq(k, "default") {
        0
    } else if str_eq(k, "email") {
        1
    } else if str_eq(k, "display-name") {
        2
    } else if str_eq(k, "signature") {
        3
    } else if str_eq(k, "signature-delim") {
        4
    } else if str_eq(k, "imap") {
        5
    } else if str_eq(k, "jmap") {
        6
    } else if str_eq(k, "maildir") {
        7
    } else if str_eq(k, "smtp") {
        8
    } else if str_eq(k, "mailbox") {
        9
    } else {
        10
    }
}

/// Appends the lines of `kept` the predicate keeps, each with its
/// newline: the server line of `key` when `server` holds, its other
/// lines otherwise.
fn push_lines(doc: &mut String, kept: &Vec<&str>, key: &str, prefix: &str, server: bool)
    requires
        prefix@ == server_prefix(key@),
    ensures
        final(doc)@ == old(doc)@ + lines_text(
            views(kept@).filter(
                if server {
                    server_line(key@)
                } else {
                    other_line(key@)
                },
            ),
        ),
{
    let ghost pred = if server {
        server_line(key@)
    } else {
        other_line(key@)
    };
    let ghost start = doc@;
    let mut t: usize = 0;
    proof {
        reveal(Seq::filter);
        reveal_strlit("\n");
        assert(views(kept@).take(0) =~= Seq::<Seq<char>>::empty());
        assert(start + lines_text(Seq::<Seq<char>>::empty()) =~= start);
    }
    while t < kept.len()
        invariant
            t <= kept.len(),
            prefix@ == server_prefix(key@),
            pred == (if server {
                server_line(key@)
            } else {
                other_line(key@)
            }),
            doc@ == start + lines_text(views(kept@).take(t as int).filter(pred)),
        decreases kept.len() - t,
    {
        let line = kept[t];
        let k = key_str(line);
        let keep = str_eq(k, key) && (starts_with(line, prefix) == server);
        let ghost done = views(kept@).take(t as int).filter(pred);
        if keep {
            doc.append(line);
            doc.append("\n");
        }
        proof {
            reveal(Seq::filter);
            reveal_strlit("\n");
            let lines = views(kept@).take(t + 1);
            assert(lines.drop_last() =~= views(kept@).take(t as int));
            assert(lines.last() == line@);
            assert(pred(line@) == keep);
            if keep {
                assert(lines.filter(pred) == done.push(line@));
                assert(lines_text(done.push(line@)).len() >= 0);
                assert(done.push(line@).drop_last() =~= done);
                assert(doc@ =~= start + lines_text(done.push(line@)));
            } else {
                assert(lines.filter(pred) == done);
            }
        }
        t = t + 1;
    }
    assert(views(kept@).take(kept.len() as int) =~= views(kept@));
}

/// Appends group `key` of `kept`: its server line, then its other lines.
fn push_group(doc: &mut String, kept: &Vec<&str>, key: &str)
    ensures
        final(doc)@ == old(doc)@ + group_text(views(kept@), key@),
{
    let mut prefix = key.to_owned();
    prefix.append(".server ");
    let ghost start = doc@;
    push_lines(doc, kept, key, prefix.as_str(), true);
    push_lines(doc, kept, key, prefix.as_str(), false);
    assert(doc@ =~= start + group_text(views(kept@), key@));
}

/// Regroups a rendered `[accounts.<name>]` block into reading order.
///
/// The serializer decides what is written, so nothing is listed here
/// twice. What this adds is reading order: alphabetical dotted keys
/// bury `imap.server` under the credentials authenticating against it,
/// so groups are reordered and `server` lifted in each.
pub fn layout_account_block(rendered: &str) -> (document: String)
    ensures
        document@ == spec_layout(rendered@),
{
    let n = rendered.unicode_len();
    let p = find_char(rendered, '\n');
    proof {
        lemma_first_pos(rendered@, '\n');
    }
    if p == n {
        return rendered.to_owned();
    }
    let header = rendered.substring_char(0, p);
    let body = rendered.substring_char(p + 1, n);
    let kept = kept_lines_of(body);
    let keys = first_keys_of(&kept);
    let ghost kv = views(kept@);
    let ghost keysv = views(keys@);
    let mut document = header.to_owned();
    document.append("\n");
    proof {
        reveal_strlit("\n");
    }
    let ghost prelude = document@;
    let ghost mut done: Seq<Seq<char>> = Seq::empty();
    let mut any = false;
    let mut r: usize = 0;
    while r < 11
        invariant
            r <= 11,
            kv == views(kept@),
            keysv == views(keys@),
            done == ordered_upto(keysv, r as int),
            any == (done.len() > 0),
            document@ == prelude + join_groups(kv, done),
        decreases 11 - r,
    {
        let mut j: usize = 0;
        proof {
            reveal(Seq::filter);
            assert(keysv.take(0) =~= Seq::<Seq<char>>::empty());
            assert(done + keysv.take(0).filter(ranked(r as int)) =~= done);
        }
        let ghost base = done;
        while j < keys.len()
            invariant
                r < 11,
                j <= keys.len(),
                kv == views(kept@),
                keysv == views(keys@),
                base == ordered_upto(keysv, r as int),
                done == base + keysv.take(j as int).filter(ranked(r as int)),
                any == (done.len() > 0),
                document@ == prelude + join_groups(kv, done),
            decreases keys.len() - j,
        {
            let key = keys[j];
            let hit = rank_of(key) == r;
            let ghost before = done;
            let ghost doc_before = document@;
            if hit {
                if any {
                    document.append("\n");
                }
                push_group(&mut document, &kept, key);
                any = true;
                proof {
                    reveal_strlit("\n");
                    let pushed = before.push(key@);
                    assert(pushed.drop_last() =~= before);
                    if before.len() == 0 {
                        assert(join_groups(kv, pushed) == group_text(kv, pushed[0]));
                        assert(join_groups(kv, before) == Seq::<char>::empty());
                        assert(document@ =~= prelude + join_groups(kv, pushed));
                    } else {
                        assert(document@ =~= prelude + join_groups(kv, pushed));
                    }
                    done = pushed;
                }
            }
            proof {
                reveal(Seq::filter);
                let taken = keysv.take(j + 1);
                assert(taken.drop_last() =~= keysv.take(j as int));
                assert(taken.last() == key@);
                if hit {
                    assert(taken.filter(ranked(r as int)) == keysv.take(j as int).filter(
                        ranked(r as int),
                    ).push(key@));
                    assert(done =~= base + taken.filter(ranked(r as int)));
                } else {
                    assert(taken.filter(ranked(r as int)) == keysv.take(j as int).filter(
                        ranked(r as int),
                    ));
                }
            }
            j = j + 1;
        }
        assert(keysv.take(keys.len() as int) =~= keysv);
        r = r + 1;
    }
    document
}

} // verus!
