use vstd::prelude::*;
use crate::classify::{upper_of, uppercase};
use vstd::string::StringExecFns;

verus! {

/// A content file named in the game's configuration, with its modification time.
#[derive(Debug, Clone, PartialEq, Eq)]
pub struct ContentEntry {
    pub name: String,
    pub modified_seconds: i64,
    pub modified_nanos: u32,
}

/// The extension of a file name: the text after its last dot, unless that dot
/// begins the name.
pub open spec fn extension_of(name: Seq<char>) -> Option<Seq<char>> {
    if exists|p: int| 0 < p < name.len() && name[p] == '.' {
        let p = choose|p: int|
            0 < p < name.len() && name[p] == '.' && forall|q: int| p < q < name.len() ==> name[q] != '.';
        Some(name.skip(p + 1))
    } else {
        None
    }
}

/// Lexicographic order of texts by character.
pub open spec fn text_lt(a: Seq<char>, b: Seq<char>) -> bool
    decreases a.len(),
{
    if a.len() == 0 {
        b.len() > 0
    } else if b.len() == 0 {
        false
    } else if a[0] != b[0] {
        a[0] < b[0]
    } else {
        text_lt(a.drop_first(), b.drop_first())
    }
}

/// The key by which content files are ordered: the extension in upper case (no
/// extension first), then the modification time.
pub struct OrderKey {
    pub group: Option<Seq<char>>,
    pub seconds: i64,
    pub nanos: u32,
}

pub open spec fn entry_key(e: ContentEntry) -> OrderKey {
    OrderKey {
        group: match extension_of(e.name@) {
            Some(x) => Some(upper_of(x)),
            None => None,
        },
        seconds: e.modified_seconds,
        nanos: e.modified_nanos,
    }
}

pub open spec fn group_lt(a: Option<Seq<char>>, b: Option<Seq<char>>) -> bool {
    match (a, b) {
        (None, Some(_)) => true,
        (Some(x), Some(y)) => text_lt(x, y),
        _ => false,
    }
}

pub open spec fn key_lt(a: OrderKey, b: OrderKey) -> bool {
    group_lt(a.group, b.group) || (a.group == b.group && (a.seconds < b.seconds || (a.seconds
        == b.seconds && a.nanos < b.nanos)))
}

/// Whether content files stand in load order.
pub open spec fn in_load_order(s: Seq<ContentEntry>) -> bool {
    forall|i: int, j: int| 0 <= i < j < s.len() ==> !key_lt(entry_key(s[j]), entry_key(s[i]))
}

proof fn lemma_text_lt_irreflexive(a: Seq<char>)
    ensures
        !text_lt(a, a),
    decreases a.len(),
{
    if a.len() > 0 {
        lemma_text_lt_irreflexive(a.drop_first());
    }
}

proof fn lemma_text_lt_transitive(a: Seq<char>, b: Seq<char>, c: Seq<char>)
    requires
        text_lt(a, b),
        text_lt(b, c),
    ensures
        text_lt(a, c),
    decreases a.len(),
{
    if a.len() > 0 && b.len() > 0 && c.len() > 0 && a[0] == b[0] && b[0] == c[0] {
        lemma_text_lt_transitive(a.drop_first(), b.drop_first(), c.drop_first());
    }
}

proof fn lemma_text_lt_total(a: Seq<char>, b: Seq<char>)
    requires
        a != b,
    ensures
        text_lt(a, b) || text_lt(b, a),
    decreases a.len(),
{
    if a.len() > 0 && b.len() > 0 && a[0] == b[0] {
        if a.drop_first() == b.drop_first() {
            assert(a =~= seq![a[0]] + a.drop_first());
            assert(b =~= seq![b[0]] + b.drop_first());
        }
        lemma_text_lt_total(a.drop_first(), b.drop_first());
    } else if a.len() == 0 && b.len() == 0 {
        assert(a =~= b);
    }
}

proof fn lemma_key_lt_facts()
    ensures
        forall|a: OrderKey| !key_lt(a, a),
        forall|a: OrderKey, b: OrderKey, c: OrderKey|
            key_lt(a, b) && key_lt(b, c) ==> key_lt(a, c),
        forall|a: OrderKey, b: OrderKey| !key_lt(a, b) && !key_lt(b, a) ==> a == b,
{
    assert forall|a: OrderKey| !key_lt(a, a) by {
        if let Some(x) = a.group {
            lemma_text_lt_irreflexive(x);
        }
    }
    assert forall|a: OrderKey, b: OrderKey, c: OrderKey|
        key_lt(a, b) && key_lt(b, c) implies key_lt(a, c) by {
        if let (Some(x), Some(y), Some(z)) = (a.group, b.group, c.group) {
            if text_lt(x, y) && text_lt(y, z) {
                lemma_text_lt_transitive(x, y, z);
            }
        }
    }
    assert forall|a: OrderKey, b: OrderKey| !key_lt(a, b) && !key_lt(b, a) implies a == b by {
        if let (Some(x), Some(y)) = (a.group, b.group) {
            if x != y {
                lemma_text_lt_total(x, y);
            }
        }
    }
}

/// Compares two texts in lexicographic order of their characters.
pub fn text_less(a: &str, b: &str) -> (r: bool)
    ensures
        r == text_lt(a@, b@),
{
    let n = a.unicode_len();
    let m = b.unicode_len();
    let mut i: usize = 0;
    assert(a@.skip(0) =~= a@);
    assert(b@.skip(0) =~= b@);
    while i < n && i < m
        invariant
            i <= n,
            i <= m,
            n == a@.len(),
            m == b@.len(),
            text_lt(a@, b@) == text_lt(a@.skip(i as int), b@.skip(i as int)),
        decreases n - i,
    {
        let x = a.get_char(i);
        let y = b.get_char(i);
        proof {
            assert(a@.skip(i as int)[0] == x);
            assert(b@.skip(i as int)[0] == y);
        }
        if x != y {
            return x < y;
        }
        proof {
            assert(a@.skip(i as int).drop_first() =~= a@.skip(i + 1));
            assert(b@.skip(i as int).drop_first() =~= b@.skip(i + 1));
        }
        i = i + 1;
    }
    i < m
}

/// The extension of a file name, as `extension_of` describes it.
pub fn extension(name: &str) -> (r: Option<String>)
    ensures
        r is None ==> extension_of(name@) is None,
        r is Some ==> extension_of(name@) == Some(r->Some_0@),
{
    let n = name.unicode_len();
    let mut p: usize = n;
    while p > 0 && name.get_char(p - 1) != '.'
        invariant
            p <= n,
            n == name@.len(),
            forall|q: int| p <= q < n ==> name@[q] != '.',
        decreases p,
    {
        p = p - 1;
    }
    if p <= 1 {
        proof {
            assert forall|q: int| 0 < q < n implies name@[q] != '.' by {}
        }
        return None;
    }
    let dot = p - 1;
    proof {
        let c = choose|c: int|
            0 < c < name@.len() && name@[c] == '.' && forall|q: int|
                c < q < name@.len() ==> name@[q] != '.';
        if c < dot {
            assert(name@[dot as int] == '.');
        } else if c > dot {
            assert(name@[c] == '.');
        }
        assert(c == dot);
        assert(name@.subrange(p as int, n as int) =~= name@.skip(p as int));
    }
    Some(String::from_str(name.substring_char(p, n)))
}

struct EntryKey {
    group: Option<String>,
    seconds: i64,
    nanos: u32,
}

spec fn key_view(k: EntryKey) -> OrderKey {
    OrderKey {
        group: match k.group {
            Some(g) => Some(g@),
            None => None,
        },
        seconds: k.seconds,
        nanos: k.nanos,
    }
}

fn key_of(e: &ContentEntry) -> (k: EntryKey)
    ensures
        key_view(k) == entry_key(*e),
{
    let group = match extension(e.name.as_str()) {
        Some(x) => Some(uppercase(x.as_str())),
        None => None,
    };
    EntryKey { group, seconds: e.modified_seconds, nanos: e.modified_nanos }
}

fn key_less(a: &EntryKey, b: &EntryKey) -> (r: bool)
    ensures
        r == key_lt(key_view(*a), key_view(*b)),
{
    let group_less = match (&a.group, &b.group) {
        (None, Some(_)) => true,
        (Some(x), Some(y)) => text_less(x.as_str(), y.as_str()),
        _ => false,
    };
    if group_less {
        return true;
    }
    let same_group = match (&a.group, &b.group) {
        (None, None) => true,
        (Some(x), Some(y)) => *x == *y,
        _ => false,
    };
    same_group && (a.seconds < b.seconds || (a.seconds == b.seconds && a.nanos < b.nanos))
}

/// `r` takes its entries from `s` at positions `idx`, and entries with equal
/// keys keep the order they had in `s`.
pub open spec fn stable_pick(s: Seq<ContentEntry>, r: Seq<ContentEntry>, idx: Seq<int>) -> bool {
    &&& idx.len() == r.len()
    &&& forall|j: int| 0 <= j < r.len() ==> 0 <= #[trigger] idx[j] < s.len() && r[j] == s[idx[j]]
    &&& forall|a: int, b: int|
        0 <= a < b < r.len() && entry_key(r[a]) == entry_key(r[b]) ==> idx[a] < idx[b]
}

/// Puts content files in load order: by extension, compared in upper case,
/// files without one first; within one extension, older files first. Files
/// with equal keys keep their order.
pub fn resolve_order(entries: Vec<ContentEntry>) -> (r: Vec<ContentEntry>)
    ensures
        in_load_order(r@),
        r@.to_multiset() == entries@.to_multiset(),
        exists|idx: Seq<int>| stable_pick(entries@, r@, idx),
{
    broadcast use vstd::seq_lib::to_multiset_build, vstd::seq_lib::to_multiset_insert;

    let ghost orig = entries@;
    let mut rest = entries;
    let mut out: Vec<ContentEntry> = Vec::new();
    let mut keys: Vec<EntryKey> = Vec::new();
    let ghost mut i: int = 0;
    let ghost mut idx: Seq<int> = Seq::empty();
    proof {
        lemma_key_lt_facts();
        assert(orig.take(0) =~= Seq::<ContentEntry>::empty());
    }
    while rest.len() > 0
        invariant
            0 <= i <= orig.len(),
            rest@ == orig.skip(i),
            keys.len() == out.len(),
            forall|j: int| 0 <= j < keys.len() ==> key_view(#[trigger] keys@[j]) == entry_key(out@[j]),
            in_load_order(out@),
            out@.to_multiset() == orig.take(i).to_multiset(),
            stable_pick(orig, out@, idx),
            forall|j: int| 0 <= j < idx.len() ==> #[trigger] idx[j] < i,
            orig == entries@,
            forall|a: OrderKey| !key_lt(a, a),
            forall|a: OrderKey, b: OrderKey, c: OrderKey|
                key_lt(a, b) && key_lt(b, c) ==> key_lt(a, c),
            forall|a: OrderKey, b: OrderKey| !key_lt(a, b) && !key_lt(b, a) ==> a == b,
        decreases rest.len(),
    {
        let x = rest.remove(0);
        let kx = key_of(&x);
        let mut pos: usize = 0;
        while pos < keys.len() && !key_less(&kx, &keys[pos])
            invariant
                pos <= keys.len(),
                forall|j: int| 0 <= j < pos ==> !key_lt(key_view(kx), key_view(#[trigger] keys@[j])),
            decreases keys.len() - pos,
        {
            pos = pos + 1;
        }
        let ghost before = out@;
        let ghost old_keys = keys@;
        let ghost kx_view = key_view(kx);
        proof {
            assert(orig[i] == x);
            assert(orig.take(i + 1) =~= orig.take(i).push(x));
            assert(kx_view == entry_key(x));
            if pos < keys.len() {
                assert(key_lt(kx_view, entry_key(before[pos as int])));
            }
        }
        out.insert(pos, x);
        keys.insert(pos, kx);
        proof {
            assert forall|j: int| 0 <= j < keys.len() implies key_view(#[trigger] keys@[j]) == entry_key(out@[j]) by {
                if j < pos {
                } else if j == pos {
                }
            }
            assert forall|a: int, b: int| 0 <= a < b < out.len() implies !key_lt(
                entry_key(out@[b]),
                entry_key(out@[a]),
            ) by {
                if b < pos {
                    assert(out@[a] == before[a] && out@[b] == before[b]);
                } else if a > pos {
                    assert(out@[a] == before[a - 1] && out@[b] == before[b - 1]);
                } else if a == pos {
                    let kb = entry_key(before[b - 1]);
                    let kp = entry_key(before[pos as int]);
                    assert(out@[b] == before[b - 1]);
                    if b - 1 > pos {
                        assert(!key_lt(kb, kp));
                    }
                    assert(key_lt(kx_view, kp));
                    assert(key_lt(kx_view, kb));
                } else if b == pos {
                    assert(out@[a] == before[a]);
                    assert(key_view(old_keys[a]) == entry_key(before[a]));
                    assert(!key_lt(kx_view, key_view(old_keys[a])));
                } else {
                    assert(out@[a] == before[a] && out@[b] == before[b - 1]);
                }
            }
            assert(out@ == before.insert(pos as int, x));
            let old_idx = idx;
            idx = idx.insert(pos as int, i);
            assert forall|j: int| 0 <= j < out.len() implies 0 <= #[trigger] idx[j] < orig.len()
                && out@[j] == orig[idx[j]] by {
                if j < pos {
                    assert(idx[j] == old_idx[j]);
                } else if j > pos {
                    assert(idx[j] == old_idx[j - 1]);
                }
            }
            assert forall|a: int, b: int|
                0 <= a < b < out.len() && entry_key(out@[a]) == entry_key(out@[b]) implies idx[a]
                < idx[b] by {
                if b < pos {
                    assert(idx[a] == old_idx[a] && idx[b] == old_idx[b]);
                } else if a > pos {
                    assert(idx[a] == old_idx[a - 1] && idx[b] == old_idx[b - 1]);
                } else if a == pos {
                    let kb = entry_key(before[b - 1]);
                    let kp = entry_key(before[pos as int]);
                    assert(out@[b] == before[b - 1]);
                    if b - 1 > pos {
                        assert(!key_lt(kb, kp));
                    }
                    assert(key_lt(kx_view, kb));
                } else if b == pos {
                    assert(idx[a] == old_idx[a]);
                    assert(old_idx[a] < i);
                } else {
                    assert(idx[a] == old_idx[a] && idx[b] == old_idx[b - 1]);
                }
            }
            assert forall|j: int| 0 <= j < idx.len() implies #[trigger] idx[j] < i + 1 by {
                if j < pos {
                    assert(idx[j] == old_idx[j]);
                } else if j > pos {
                    assert(idx[j] == old_idx[j - 1]);
                }
            }
            vstd::seq_lib::to_multiset_insert(before, pos as int, x);
            vstd::seq_lib::to_multiset_build(orig.take(i), x);
            assert(orig.take(i + 1).to_multiset() == orig.take(i).to_multiset().insert(x));
            i = i + 1;
            assert(rest@ =~= orig.skip(i));
        }
    }
    assert(orig.take(i) =~= orig);
    assert(stable_pick(entries@, out@, idx));
    out
}

} // verus!
