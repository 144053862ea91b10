use vstd::prelude::*;
use vstd::utf8::{decode_utf8, encode_utf8};

use crate::feed::texts;
use crate::text::{lower_of, lowercase};

verus! {

/// Lexicographic order of byte strings from position `i` on: the first
/// differing byte decides, and a proper prefix comes first.
pub open spec fn le_from(a: Seq<u8>, b: Seq<u8>, i: int) -> bool
    decreases a.len() - i,
{
    if i < 0 || i >= a.len() {
        true
    } else if i >= b.len() {
        false
    } else if a[i] != b[i] {
        a[i] < b[i]
    } else {
        le_from(a, b, i + 1)
    }
}

/// Lexicographic order of byte strings, as `Ord` orders `str`.
pub open spec fn bytes_le(a: Seq<u8>, b: Seq<u8>) -> bool {
    le_from(a, b, 0)
}

/// The order of entries given with their keys: the UTF-8 bytes of the keys
/// decide, and entries with equal keys go by the bytes of the paths.
pub open spec fn entry_le(kp: Seq<char>, p: Seq<char>, kq: Seq<char>, q: Seq<char>) -> bool {
    if kp == kq {
        bytes_le(encode_utf8(p), encode_utf8(q))
    } else {
        bytes_le(encode_utf8(kp), encode_utf8(kq))
    }
}

/// Whether (key, path) pairs are in ascending order.
pub open spec fn sorted_pairs(s: Seq<(String, String)>) -> bool {
    forall|i: int, j: int|
        0 <= i < j < s.len() ==> #[trigger] entry_le(s[i].0@, s[i].1@, s[j].0@, s[j].1@)
}

/// The order of directory entries: by the path in lower case, then by the
/// path itself.
pub open spec fn path_le(p: Seq<char>, q: Seq<char>) -> bool {
    entry_le(lower_of(p), p, lower_of(q), q)
}

/// Whether paths are in ascending directory order.
pub open spec fn sorted_paths(paths: Seq<Seq<char>>) -> bool {
    forall|i: int, j: int| 0 <= i < j < paths.len() ==> #[trigger] path_le(paths[i], paths[j])
}

proof fn lemma_le_total(a: Seq<u8>, b: Seq<u8>, i: int)
    requires
        0 <= i,
    ensures
        le_from(a, b, i) || le_from(b, a, i),
    decreases a.len() - i,
{
    if i < a.len() && i < b.len() && a[i] == b[i] {
        lemma_le_total(a, b, i + 1);
    }
}

proof fn lemma_le_transitive(a: Seq<u8>, b: Seq<u8>, c: Seq<u8>, i: int)
    requires
        0 <= i,
        le_from(a, b, i),
        le_from(b, c, i),
    ensures
        le_from(a, c, i),
    decreases a.len() - i,
{
    if i < a.len() && a[i] == b[i] && b[i] == c[i] {
        lemma_le_transitive(a, b, c, i + 1);
    }
}

proof fn lemma_le_antisymmetric_from(a: Seq<u8>, b: Seq<u8>, i: int)
    requires
        0 <= i <= a.len(),
        i <= b.len(),
        le_from(a, b, i),
        le_from(b, a, i),
    ensures
        a.subrange(i, a.len() as int) == b.subrange(i, b.len() as int),
    decreases a.len() - i,
{
    if i < a.len() {
        lemma_le_antisymmetric_from(a, b, i + 1);
        assert(a.subrange(i, a.len() as int) =~= seq![a[i]] + a.subrange(i + 1, a.len() as int));
        assert(b.subrange(i, b.len() as int) =~= seq![b[i]] + b.subrange(i + 1, b.len() as int));
    } else {
        assert(a.subrange(i, a.len() as int) =~= b.subrange(i, b.len() as int));
    }
}

proof fn lemma_le_antisymmetric(a: Seq<u8>, b: Seq<u8>)
    requires
        bytes_le(a, b),
        bytes_le(b, a),
    ensures
        a == b,
{
    lemma_le_antisymmetric_from(a, b, 0);
    assert(a.subrange(0, a.len() as int) =~= a);
    assert(b.subrange(0, b.len() as int) =~= b);
}

proof fn lemma_encode_injective(p: Seq<char>, q: Seq<char>)
    requires
        encode_utf8(p) == encode_utf8(q),
    ensures
        p == q,
{
    vstd::utf8::encode_utf8_decode_utf8(p);
    vstd::utf8::encode_utf8_decode_utf8(q);
}

proof fn lemma_entry_total(kp: Seq<char>, p: Seq<char>, kq: Seq<char>, q: Seq<char>)
    ensures
        entry_le(kp, p, kq, q) || entry_le(kq, q, kp, p),
{
    lemma_le_total(encode_utf8(p), encode_utf8(q), 0);
    lemma_le_total(encode_utf8(kp), encode_utf8(kq), 0);
}

proof fn lemma_entry_transitive(
    kp: Seq<char>,
    p: Seq<char>,
    kq: Seq<char>,
    q: Seq<char>,
    kr: Seq<char>,
    r: Seq<char>,
)
    requires
        entry_le(kp, p, kq, q),
        entry_le(kq, q, kr, r),
    ensures
        entry_le(kp, p, kr, r),
{
    if kp == kq && kq == kr {
        lemma_le_transitive(encode_utf8(p), encode_utf8(q), encode_utf8(r), 0);
    } else if kp != kq && kq != kr {
        lemma_le_transitive(encode_utf8(kp), encode_utf8(kq), encode_utf8(kr), 0);
        if kp == kr {
            lemma_le_antisymmetric(encode_utf8(kp), encode_utf8(kq));
            lemma_encode_injective(kp, kq);
        }
    }
}

proof fn lemma_entry_antisymmetric(kp: Seq<char>, p: Seq<char>, kq: Seq<char>, q: Seq<char>)
    requires
        entry_le(kp, p, kq, q),
        entry_le(kq, q, kp, p),
    ensures
        kp == kq,
        p == q,
{
    if kp == kq {
        lemma_le_antisymmetric(encode_utf8(p), encode_utf8(q));
        lemma_encode_injective(p, q);
    } else {
        lemma_le_antisymmetric(encode_utf8(kp), encode_utf8(kq));
        lemma_encode_injective(kp, kq);
    }
}

fn key_le(a: &[u8], b: &[u8]) -> (r: bool)
    ensures
        r == bytes_le(a@, b@),
{
    let mut i: usize = 0;
    while i < a.len()
        invariant
            i <= a@.len(),
            bytes_le(a@, b@) == le_from(a@, b@, i as int),
        decreases a.len() - i,
    {
        if i >= b.len() {
            return false;
        }
        if a[i] != b[i] {
            return a[i] < b[i];
        }
        i = i + 1;
    }
    true
}

fn entry_le_exec(kp: &str, p: &str, kq: &str, q: &str) -> (r: bool)
    ensures
        r == entry_le(kp@, p@, kq@, q@),
{
    let forward = key_le(kp.as_bytes(), kq.as_bytes());
    let backward = key_le(kq.as_bytes(), kp.as_bytes());
    if forward && backward {
        proof {
            lemma_le_antisymmetric(encode_utf8(kp@), encode_utf8(kq@));
            lemma_encode_injective(kp@, kq@);
        }
        key_le(p.as_bytes(), q.as_bytes())
    } else {
        proof {
            lemma_le_total(encode_utf8(kp@), encode_utf8(kp@), 0);
        }
        forward
    }
}

/// What a sequence holds, as a multiset, keeps through a map.
proof fn lemma_map_multiset<A, B>(a: Seq<A>, b: Seq<A>, f: spec_fn(A) -> B)
    requires
        a.to_multiset() == b.to_multiset(),
    ensures
        a.map_values(f).to_multiset() == b.map_values(f).to_multiset(),
    decreases a.len(),
{
    a.to_multiset_ensures();
    b.to_multiset_ensures();
    if a.len() == 0 {
        assert(b.len() == 0);
        assert(a.map_values(f) =~= b.map_values(f));
    } else {
        let x = a.last();
        let a1 = a.drop_last();
        assert(a1.push(x) =~= a);
        a1.to_multiset_ensures();
        assert(a.to_multiset().count(x) > 0);
        assert(b.contains(x));
        let k = choose|k: int| 0 <= k < b.len() && b[k] == x;
        let b1 = b.remove(k);
        assert(b1.to_multiset() == b.to_multiset().remove(x));
        assert(a1.to_multiset() =~= a.to_multiset().remove(x));
        lemma_map_multiset(a1, b1, f);
        let ma = a.map_values(f);
        let mb = b.map_values(f);
        assert(ma =~= a1.map_values(f).push(f(x)));
        a1.map_values(f).to_multiset_ensures();
        assert(b1.map_values(f) =~= mb.remove(k));
        mb.to_multiset_ensures();
        assert(mb[k] == f(x));
        assert(mb.to_multiset().count(f(x)) > 0);
        assert(ma.to_multiset() =~= mb.to_multiset());
    }
}

/// Orders entries given as (key, path) pairs: by the UTF-8 bytes of the
/// keys, and entries with equal keys by the bytes of their paths. The
/// result holds the same pairs.
pub fn order_by_keys(entries: Vec<(String, String)>) -> (r: Vec<(String, String)>)
    ensures
        r@.to_multiset() == entries@.to_multiset(),
        sorted_pairs(r@),
{
    let mut out: Vec<(String, String)> = Vec::new();
    let mut i: usize = 0;
    assert(out@ =~= entries@.subrange(0, 0));
    while i < entries.len()
        invariant
            i <= entries@.len(),
            out@.to_multiset() == entries@.subrange(0, i as int).to_multiset(),
            sorted_pairs(out@),
        decreases entries.len() - i,
    {
        let e = (entries[i].0.clone(), entries[i].1.clone());
        assert(e == entries@[i as int]);
        let mut pos: usize = 0;
        while pos < out.len() && entry_le_exec(
            out[pos].0.as_str(),
            out[pos].1.as_str(),
            e.0.as_str(),
            e.1.as_str(),
        )
            invariant
                pos <= out@.len(),
                forall|j: int|
                    0 <= j < pos ==> #[trigger] entry_le(out@[j].0@, out@[j].1@, e.0@, e.1@),
            decreases out.len() - pos,
        {
            pos = pos + 1;
        }
        proof {
            if pos < out@.len() {
                let f = out@[pos as int];
                lemma_entry_total(f.0@, f.1@, e.0@, e.1@);
                assert forall|j: int| pos <= j < out@.len() implies entry_le(
                    e.0@,
                    e.1@,
                    out@[j].0@,
                    out@[j].1@,
                ) by {
                    if j > pos {
                        assert(entry_le(f.0@, f.1@, out@[j].0@, out@[j].1@));
                        lemma_entry_transitive(e.0@, e.1@, f.0@, f.1@, out@[j].0@, out@[j].1@);
                    }
                }
            }
        }
        let ghost before = out@;
        out.insert(pos, e);
        proof {
            assert(out@.remove(pos as int) =~= before);
            out@.to_multiset_ensures();
            assert(out@.contains(out@[pos as int]));
            assert(out@.to_multiset().count(entries@[i as int]) > 0);
            assert(out@.to_multiset() =~= before.to_multiset().insert(entries@[i as int]));
            assert(entries@.subrange(0, i + 1) =~= entries@.subrange(0, i as int).push(
                entries@[i as int],
            ));
            entries@.subrange(0, i as int).to_multiset_ensures();
            assert forall|a: int, b: int| 0 <= a < b < out@.len() implies #[trigger] entry_le(
                out@[a].0@,
                out@[a].1@,
                out@[b].0@,
                out@[b].1@,
            ) by {
                if b < pos {
                    assert(out@[a] == before[a] && out@[b] == before[b]);
                } else if b == pos {
                    assert(out@[a] == before[a]);
                } else if a < pos {
                    assert(out@[a] == before[a] && out@[b] == before[b - 1]);
                    lemma_entry_transitive(
                        before[a].0@,
                        before[a].1@,
                        e.0@,
                        e.1@,
                        before[b - 1].0@,
                        before[b - 1].1@,
                    );
                } else if a == pos {
                    assert(out@[b] == before[b - 1]);
                } else {
                    assert(out@[a] == before[a - 1] && out@[b] == before[b - 1]);
                }
            }
        }
        i = i + 1;
    }
    assert(entries@.subrange(0, entries@.len() as int) =~= entries@);
    out
}

pub open spec fn second(e: (String, String)) -> String {
    e.1
}

/// Orders the paths of a directory's entries: by their lower-case form,
/// compared byte by byte, and paths with the same lower-case form by their
/// own bytes. A listing is thus visited the same way whatever order the
/// file system gave it in. The result holds the same paths.
pub fn order_entries(paths: Vec<String>) -> (r: Vec<String>)
    ensures
        r@.to_multiset() == paths@.to_multiset(),
        sorted_paths(texts(r@)),
{
    let mut keyed: Vec<(String, String)> = Vec::new();
    let mut i: usize = 0;
    while i < paths.len()
        invariant
            i <= paths@.len(),
            keyed@.len() == i,
            forall|j: int| 0 <= j < i ==> #[trigger] keyed@[j].1 == paths@[j],
            forall|j: int| 0 <= j < i ==> #[trigger] keyed@[j].0@ == lower_of(keyed@[j].1@),
        decreases paths.len() - i,
    {
        let path = paths[i].clone();
        let key = lowercase(path.as_str());
        keyed.push((key, path));
        i = i + 1;
    }
    assert(keyed@.map_values(|e: (String, String)| second(e)) =~= paths@);
    let sorted = order_by_keys(keyed);
    proof {
        sorted@.to_multiset_ensures();
        keyed@.to_multiset_ensures();
        assert forall|j: int| 0 <= j < sorted@.len() implies #[trigger] sorted@[j].0@ == lower_of(
            sorted@[j].1@,
        ) by {
            assert(sorted@.to_multiset().count(sorted@[j]) > 0);
            assert(keyed@.contains(sorted@[j]));
        }
    }
    let mut out: Vec<String> = Vec::new();
    let mut k: usize = 0;
    while k < sorted.len()
        invariant
            k <= sorted@.len(),
            out@ == sorted@.subrange(0, k as int).map_values(|e: (String, String)| second(e)),
        decreases sorted.len() - k,
    {
        out.push(sorted[k].1.clone());
        assert(out@ =~= sorted@.subrange(0, k + 1).map_values(|e: (String, String)| second(e)));
        k = k + 1;
    }
    proof {
        assert(sorted@.subrange(0, sorted@.len() as int) =~= sorted@);
        lemma_map_multiset(sorted@, keyed@, |e: (String, String)| second(e));
        assert forall|a: int, b: int| 0 <= a < b < texts(out@).len() implies #[trigger] path_le(
            texts(out@)[a],
            texts(out@)[b],
        ) by {
            assert(entry_le(sorted@[a].0@, sorted@[a].1@, sorted@[b].0@, sorted@[b].1@));
            assert(sorted@[a].0@ == lower_of(sorted@[a].1@));
            assert(sorted@[b].0@ == lower_of(sorted@[b].1@));
        }
    }
    out
}

proof fn lemma_sorted_unique(a: Seq<Seq<char>>, b: Seq<Seq<char>>)
    requires
        a.to_multiset() == b.to_multiset(),
        sorted_paths(a),
        sorted_paths(b),
    ensures
        a == b,
    decreases a.len(),
{
    a.to_multiset_ensures();
    b.to_multiset_ensures();
    if a.len() == 0 {
        assert(a =~= b);
    } else {
        assert(a.to_multiset().count(a[0]) > 0);
        assert(b.contains(a[0]));
        let k = choose|k: int| 0 <= k < b.len() && b[k] == a[0];
        assert(b.to_multiset().count(b[0]) > 0);
        assert(a.contains(b[0]));
        let m = choose|m: int| 0 <= m < a.len() && a[m] == b[0];
        if k != 0 && m != 0 {
            assert(path_le(b[0], b[k]));
            assert(path_le(a[0], a[m]));
            lemma_entry_antisymmetric(lower_of(a[0]), a[0], lower_of(b[0]), b[0]);
        }
        assert(a[0] == b[0]);
        assert(a.remove(0) =~= a.drop_first());
        assert(b.remove(0) =~= b.drop_first());
        assert(a.remove(0).to_multiset() == a.to_multiset().remove(a[0]));
        assert(b.remove(0).to_multiset() == b.to_multiset().remove(b[0]));
        let a1 = a.drop_first();
        let b1 = b.drop_first();
        assert forall|i: int, j: int| 0 <= i < j < a1.len() implies #[trigger] path_le(
            a1[i],
            a1[j],
        ) by {
            assert(a1[i] == a[i + 1] && a1[j] == a[j + 1]);
        }
        assert forall|i: int, j: int| 0 <= i < j < b1.len() implies #[trigger] path_le(
            b1[i],
            b1[j],
        ) by {
            assert(b1[i] == b[i + 1] && b1[j] == b[j + 1]);
        }
        lemma_sorted_unique(a1, b1);
        assert(a.len() == b.len());
        assert forall|i: int| 0 <= i < a.len() implies a[i] == b[i] by {
            if i > 0 {
                assert(a[i] == a1[i - 1] && b[i] == b1[i - 1]);
            }
        }
        assert(a =~= b);
    }
}

/// Directory order depends on the entries alone: two listings of the same
/// entries, in whatever order the file system gave them, are visited in the
/// same order. `rx` and `ry` stand for what `order_entries` returns for `x`
/// and `y`.
pub proof fn lemma_listing_order_deterministic(
    x: Seq<String>,
    y: Seq<String>,
    rx: Seq<String>,
    ry: Seq<String>,
)
    requires
        x.to_multiset() == y.to_multiset(),
        rx.to_multiset() == x.to_multiset(),
        sorted_paths(texts(rx)),
        ry.to_multiset() == y.to_multiset(),
        sorted_paths(texts(ry)),
    ensures
        texts(rx) == texts(ry),
{
    lemma_map_multiset(rx, ry, |s: String| s@);
    lemma_sorted_unique(texts(rx), texts(ry));
}

} // verus!
