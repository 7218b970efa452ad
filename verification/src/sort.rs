//! Stable sorting of indices by composite keys.

use vstd::prelude::*;

verus! {

/// Code-point lexicographic order on text, which is the order `str` and
/// `String` compare in (UTF-8 byte order equals code point order).
pub open spec fn text_lt(a: Seq<char>, b: Seq<char>) -> bool
    decreases a.len(),
{
    if a.len() == 0 {
        b.len() > 0
    } else if b.len() == 0 {
        false
    } else if a[0] != b[0] {
        (a[0] as int) < (b[0] as int)
    } else {
        text_lt(a.drop_first(), b.drop_first())
    }
}

/// No text sorts before itself.
pub proof fn lemma_text_lt_irreflexive(a: Seq<char>)
    ensures
        !text_lt(a, a),
    decreases a.len(),
{
    if a.len() > 0 {
        lemma_text_lt_irreflexive(a.drop_first());
    }
}

/// Of two different texts exactly one sorts first.
pub proof fn lemma_text_lt_total(a: Seq<char>, b: Seq<char>)
    ensures
        a == b || text_lt(a, b) || text_lt(b, a),
        !(text_lt(a, b) && text_lt(b, a)),
    decreases a.len(),
{
    if a.len() == 0 && b.len() == 0 {
        assert(a =~= b);
    } else if a.len() == 0 || b.len() == 0 {
    } else if a[0] != b[0] {
        assert((a[0] as int) != (b[0] as int));
    } else {
        lemma_text_lt_total(a.drop_first(), b.drop_first());
        if a.drop_first() == b.drop_first() {
            assert(a =~= seq![a[0]] + a.drop_first());
            assert(b =~= seq![b[0]] + b.drop_first());
        }
    }
}

/// Text order is transitive.
pub proof fn lemma_text_lt_transitive(a: Seq<char>, b: Seq<char>, c: Seq<char>)
    requires
        text_lt(a, b),
        text_lt(b, c),
    ensures
        text_lt(a, c),
    decreases a.len(),
{
    if a.len() > 0 && b.len() > 0 && c.len() > 0 && a[0] == b[0] && b[0] == c[0] {
        lemma_text_lt_transitive(a.drop_first(), b.drop_first(), c.drop_first());
    }
}

/// A sort key: ordered by `major`, then `minor`, then `text`.
pub struct SortKey {
    pub major: i128,
    pub minor: i128,
    pub text: Vec<char>,
}

pub struct SortKeyView {
    pub major: int,
    pub minor: int,
    pub text: Seq<char>,
}

impl View for SortKey {
    type V = SortKeyView;

    open spec fn view(&self) -> SortKeyView {
        SortKeyView { major: self.major as int, minor: self.minor as int, text: self.text@ }
    }
}

pub open spec fn key_lt(a: SortKeyView, b: SortKeyView) -> bool {
    ||| a.major < b.major
    ||| (a.major == b.major && a.minor < b.minor)
    ||| (a.major == b.major && a.minor == b.minor && text_lt(a.text, b.text))
}

/// Index `i` comes before index `j`: smaller key, or equal keys and `i < j`
/// (what a stable sort keeps).
pub open spec fn before(keys: Seq<SortKeyView>, i: usize, j: usize) -> bool {
    key_lt(keys[i as int], keys[j as int]) || (keys[i as int] == keys[j as int] && i < j)
}

pub open spec fn sorted_by(keys: Seq<SortKeyView>, r: Seq<usize>) -> bool {
    forall|a: int, b: int| 0 <= a < b < r.len() ==> before(keys, #[trigger] r[a], #[trigger] r[b])
}

/// `p` lists every index of `keys` once, in sorted order.
pub open spec fn is_order_of(keys: Seq<SortKeyView>, p: Seq<usize>) -> bool {
    &&& p.len() == keys.len()
    &&& forall|x: usize| p.contains(x) <==> x < keys.len()
    &&& sorted_by(keys, p)
}

pub open spec fn keys_view(keys: Seq<SortKey>) -> Seq<SortKeyView> {
    keys.map_values(|k: SortKey| k@)
}

proof fn lemma_before_total(keys: Seq<SortKeyView>, i: usize, j: usize)
    requires
        i != j,
    ensures
        before(keys, i, j) || before(keys, j, i),
        !(before(keys, i, j) && before(keys, j, i)),
{
    lemma_text_lt_total(keys[i as int].text, keys[j as int].text);
    if keys[i as int].major == keys[j as int].major && keys[i as int].minor == keys[j as int].minor
        && keys[i as int].text == keys[j as int].text {
        assert(keys[i as int] == keys[j as int]);
    }
}

proof fn lemma_before_transitive(keys: Seq<SortKeyView>, i: usize, j: usize, k: usize)
    requires
        before(keys, i, j),
        before(keys, j, k),
    ensures
        before(keys, i, k),
{
    let (a, b, c) = (keys[i as int], keys[j as int], keys[k as int]);
    if a.major == b.major && b.major == c.major && a.minor == b.minor && b.minor == c.minor
        && text_lt(a.text, b.text) && text_lt(b.text, c.text) {
        lemma_text_lt_transitive(a.text, b.text, c.text);
    }
}

proof fn lemma_before_irreflexive(keys: Seq<SortKeyView>, i: usize)
    ensures
        !before(keys, i, i),
{
    lemma_text_lt_irreflexive(keys[i as int].text);
}

/// Two sequences sorted by the same keys and holding the same indices are equal.
pub proof fn lemma_sorted_unique(keys: Seq<SortKeyView>, r1: Seq<usize>, r2: Seq<usize>)
    requires
        sorted_by(keys, r1),
        sorted_by(keys, r2),
        forall|x: usize| r1.contains(x) <==> r2.contains(x),
    ensures
        r1 == r2,
    decreases r1.len(),
{
    if r1.len() == 0 {
        if r2.len() > 0 {
            assert(r2.contains(r2[0]));
        }
        assert(r1 =~= r2);
    } else {
        assert(r1.contains(r1[0]));
        assert(r2.contains(r1[0]));
        assert(r2.len() > 0);
        assert(r2.contains(r2[0]));
        assert(r1.contains(r2[0]));
        let k = choose|k: int| 0 <= k < r2.len() && r2[k] == r1[0];
        let m = choose|m: int| 0 <= m < r1.len() && r1[m] == r2[0];
        if k > 0 {
            assert(before(keys, r2[0], r2[k]));
            if m > 0 {
                assert(before(keys, r1[0], r1[m]));
                if r1[0] == r2[0] {
                    lemma_before_irreflexive(keys, r1[0]);
                } else {
                    lemma_before_total(keys, r1[0], r2[0]);
                }
            } else {
                lemma_before_irreflexive(keys, r1[0]);
            }
        }
        assert(r1[0] == r2[0]);
        let t1 = r1.drop_first();
        let t2 = r2.drop_first();
        assert forall|a: int, b: int| 0 <= a < b < t1.len() implies before(keys, #[trigger] t1[a], #[trigger] t1[b]) by {
            assert(t1[a] == r1[a + 1] && t1[b] == r1[b + 1]);
        }
        assert forall|a: int, b: int| 0 <= a < b < t2.len() implies before(keys, #[trigger] t2[a], #[trigger] t2[b]) by {
            assert(t2[a] == r2[a + 1] && t2[b] == r2[b + 1]);
        }
        assert forall|x: usize| t1.contains(x) <==> t2.contains(x) by {
            if t1.contains(x) {
                let a = choose|a: int| 0 <= a < t1.len() && t1[a] == x;
                assert(r1[a + 1] == x);
                assert(before(keys, r1[0], r1[a + 1]));
                lemma_before_irreflexive(keys, x);
                assert(x != r1[0]);
                assert(r2.contains(x));
                let b = choose|b: int| 0 <= b < r2.len() && r2[b] == x;
                assert(b != 0);
                assert(t2[b - 1] == x);
            }
            if t2.contains(x) {
                let a = choose|a: int| 0 <= a < t2.len() && t2[a] == x;
                assert(r2[a + 1] == x);
                assert(before(keys, r2[0], r2[a + 1]));
                lemma_before_irreflexive(keys, x);
                assert(x != r2[0]);
                assert(r1.contains(x));
                let b = choose|b: int| 0 <= b < r1.len() && r1[b] == x;
                assert(b != 0);
                assert(t1[b - 1] == x);
            }
        }
        lemma_sorted_unique(keys, t1, t2);
        assert(r1 =~= seq![r1[0]] + t1);
        assert(r2 =~= seq![r2[0]] + t2);
    }
}

/// Three-way code-point comparison of two texts: -1, 0 or 1.
pub fn text_order(a: &Vec<char>, b: &Vec<char>) -> (r: i8)
    ensures
        r == -1 <==> text_lt(a@, b@),
        r == 0 <==> a@ == b@,
        r == 1 <==> text_lt(b@, a@),
        -1 <= r <= 1,
{
    let mut i: usize = 0;
    assert(a@.subrange(0, a.len() as int) =~= a@);
    assert(b@.subrange(0, b.len() as int) =~= b@);
    assert(a@.subrange(0, 0) =~= b@.subrange(0, 0));
    while i < a.len() && i < b.len() && a[i] == b[i]
        invariant
            i <= a.len(),
            i <= b.len(),
            a@.subrange(0, i as int) == b@.subrange(0, i as int),
            text_lt(a@, b@) == text_lt(a@.subrange(i as int, a.len() as int), b@.subrange(i as int, b.len() as int)),
            text_lt(b@, a@) == text_lt(b@.subrange(i as int, b.len() as int), a@.subrange(i as int, a.len() as int)),
        decreases a.len() - i,
    {
        assert(a@.subrange(i as int, a.len() as int).drop_first() =~= a@.subrange(i + 1, a.len() as int));
        assert(b@.subrange(i as int, b.len() as int).drop_first() =~= b@.subrange(i + 1, b.len() as int));
        assert(a@.subrange(0, i + 1) =~= a@.subrange(0, i as int).push(a@[i as int]));
        assert(b@.subrange(0, i + 1) =~= b@.subrange(0, i as int).push(b@[i as int]));
        i += 1;
    }
    proof {
        lemma_text_lt_total(a@, b@);
        lemma_text_lt_irreflexive(a@);
    }
    if i == a.len() && i == b.len() {
        assert(a@ =~= a@.subrange(0, i as int));
        assert(b@ =~= b@.subrange(0, i as int));
        return 0;
    }
    if i == a.len() {
        assert(a@ =~= a@.subrange(0, i as int));
        assert(a@ != b@);
        return -1;
    }
    if i == b.len() {
        assert(b@ =~= b@.subrange(0, i as int));
        assert(a@ != b@);
        return 1;
    }
    assert(a@[i as int] != b@[i as int]);
    assert(a@ != b@);
    if a[i] < b[i] {
        -1
    } else {
        1
    }
}

fn key_before(keys: &Vec<SortKey>, i: usize, j: usize) -> (r: bool)
    requires
        i < keys.len(),
        j < keys.len(),
    ensures
        r == before(keys_view(keys@), i, j),
{
    let a = &keys[i];
    let b = &keys[j];
    let ghost kv = keys_view(keys@);
    assert(kv[i as int] == a@);
    assert(kv[j as int] == b@);
    if a.major != b.major {
        return a.major < b.major;
    }
    if a.minor != b.minor {
        return a.minor < b.minor;
    }
    let t = text_order(&a.text, &b.text);
    if t == 0 {
        assert(a@ == b@);
        i < j
    } else {
        assert(a@ != b@);
        t == -1
    }
}

/// The candidates sorted by their keys, equal keys in candidate order: what a
/// stable sort of the increasing candidate list gives.
pub fn stable_sort(cands: &Vec<usize>, keys: &Vec<SortKey>) -> (r: Vec<usize>)
    requires
        forall|a: int, b: int| 0 <= a < b < cands.len() ==> cands@[a] < cands@[b],
        forall|a: int| 0 <= a < cands.len() ==> cands@[a] < keys.len(),
    ensures
        r@.len() == cands@.len(),
        forall|x: usize| r@.contains(x) <==> cands@.contains(x),
        sorted_by(keys_view(keys@), r@),
{
    let ghost kv = keys_view(keys@);
    let mut r: Vec<usize> = Vec::new();
    let mut i: usize = 0;
    while i < cands.len()
        invariant
            i <= cands.len(),
            kv == keys_view(keys@),
            forall|a: int, b: int| 0 <= a < b < cands.len() ==> cands@[a] < cands@[b],
            forall|a: int| 0 <= a < cands.len() ==> cands@[a] < keys.len(),
            r@.len() == i,
            forall|a: int| 0 <= a < r.len() ==> r@[a] < keys.len(),
            forall|x: usize| r@.contains(x) <==> cands@.subrange(0, i as int).contains(x),
            sorted_by(kv, r@),
        decreases cands.len() - i,
    {
        let x = cands[i];
        let mut p: usize = 0;
        while p < r.len() && !key_before(keys, x, r[p])
            invariant
                p <= r.len(),
                x < keys.len(),
                kv == keys_view(keys@),
                forall|a: int| 0 <= a < r.len() ==> r@[a] < keys.len(),
                forall|a: int| 0 <= a < p ==> !before(kv, x, #[trigger] r@[a]),
            decreases r.len() - p,
        {
            p += 1;
        }
        proof {
            assert forall|a: int| 0 <= a < r.len() implies r@[a] != x by {
                assert(r@.contains(r@[a]));
                assert(cands@.subrange(0, i as int).contains(r@[a]));
                let k = choose|k: int| 0 <= k < i && cands@.subrange(0, i as int)[k] == r@[a];
                assert(cands@[k] < cands@[i as int]);
            }
            assert forall|a: int| 0 <= a < p implies before(kv, #[trigger] r@[a], x) by {
                lemma_before_total(kv, x, r@[a]);
            }
            if p < r.len() {
                assert forall|a: int| p <= a < r.len() implies before(kv, x, #[trigger] r@[a]) by {
                    if a > p {
                        lemma_before_transitive(kv, x, r@[p as int], r@[a]);
                    }
                }
            }
        }
        let ghost old_r = r@;
        let ghost pre0 = cands@.subrange(0, i as int);
        let ghost pre1 = cands@.subrange(0, i + 1);
        r.insert(p, x);
        proof {
            assert(r@ == old_r.insert(p as int, x));
            assert forall|a: int| 0 <= a < r.len() implies r@[a] < keys.len() by {
                if a < p {
                    assert(r@[a] == old_r[a]);
                } else if a > p {
                    assert(r@[a] == old_r[a - 1]);
                }
            }
            assert forall|a: int, b: int| 0 <= a < b < r@.len() implies before(kv, #[trigger] r@[a], #[trigger] r@[b]) by {
                if b < p {
                    assert(r@[a] == old_r[a] && r@[b] == old_r[b]);
                } else if b == p {
                    assert(r@[a] == old_r[a]);
                } else if a < p {
                    assert(r@[a] == old_r[a] && r@[b] == old_r[b - 1]);
                    if p < old_r.len() {
                        lemma_before_transitive(kv, old_r[a], x, old_r[b - 1]);
                    }
                } else if a == p {
                    assert(r@[b] == old_r[b - 1]);
                } else {
                    assert(r@[a] == old_r[a - 1] && r@[b] == old_r[b - 1]);
                }
            }
            assert forall|y: usize| r@.contains(y) <==> pre1.contains(y) by {
                if r@.contains(y) {
                    let k = choose|k: int| 0 <= k < r@.len() && r@[k] == y;
                    if k < p {
                        assert(old_r[k] == y);
                        assert(old_r.contains(y));
                        let m = choose|m: int| 0 <= m < i && pre0[m] == y;
                        assert(pre1[m] == y);
                    } else if k == p {
                        assert(pre1[i as int] == y);
                    } else {
                        assert(old_r[k - 1] == y);
                        assert(old_r.contains(y));
                        let m = choose|m: int| 0 <= m < i && pre0[m] == y;
                        assert(pre1[m] == y);
                    }
                }
                if pre1.contains(y) {
                    let m = choose|m: int| 0 <= m <= i && pre1[m] == y;
                    if m == i {
                        assert(r@[p as int] == y);
                    } else {
                        assert(pre0[m] == y);
                        assert(old_r.contains(y));
                        let k = choose|k: int| 0 <= k < old_r.len() && old_r[k] == y;
                        if k < p {
                            assert(r@[k] == y);
                        } else {
                            assert(r@[k + 1] == y);
                        }
                    }
                }
            }
        }
        i += 1;
    }
    assert(cands@.subrange(0, cands.len() as int) =~= cands@);
    r
}

} // verus!
