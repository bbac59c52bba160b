//! Lexicographic order of texts and a stable sort by key.

use crate::text;
use vstd::prelude::*;

verus! {

/// Whether `a` comes before `b`, character by character.
pub open spec fn text_lt(a: Seq<char>, b: Seq<char>) -> bool
    decreases a.len(),
{
    if b.len() == 0 {
        false
    } else if a.len() == 0 {
        true
    } else if a[0] == b[0] {
        text_lt(a.drop_first(), b.drop_first())
    } else {
        a[0] < b[0]
    }
}

/// Whether `a` comes before `b`, part by part.
pub open spec fn parts_lt(a: Seq<Seq<char>>, b: Seq<Seq<char>>) -> bool
    decreases a.len(),
{
    if b.len() == 0 {
        false
    } else if a.len() == 0 {
        true
    } else if a[0] == b[0] {
        parts_lt(a.drop_first(), b.drop_first())
    } else {
        text_lt(a[0], b[0])
    }
}

/// A sort key: a rank, and texts that settle equal ranks.
pub struct SortKey {
    /// Compared first.
    pub rank: u64,
    /// Compared part by part where the ranks are equal.
    pub parts: Vec<String>,
}

/// What a sort key compares by.
pub struct KeyView {
    /// The rank.
    pub rank: int,
    /// The texts.
    pub parts: Seq<Seq<char>>,
}

impl View for SortKey {
    type V = KeyView;

    open spec fn view(&self) -> KeyView {
        KeyView { rank: self.rank as int, parts: text::texts(self.parts@) }
    }
}

/// Whether key `a` comes before key `b`.
pub open spec fn key_lt(a: KeyView, b: KeyView) -> bool {
    a.rank < b.rank || (a.rank == b.rank && parts_lt(a.parts, b.parts))
}

/// The keys of a list.
pub open spec fn key_views(keys: Seq<SortKey>) -> Seq<KeyView> {
    Seq::new(keys.len(), |i: int| keys[i]@)
}

/// Whether item `x` comes before item `y`: by key, equal keys by position.
pub open spec fn before(keys: Seq<KeyView>, x: int, y: int) -> bool {
    key_lt(keys[x], keys[y]) || (!key_lt(keys[y], keys[x]) && x < y)
}

/// Whether `order` lists every position of `keys` once, in stable key order.
pub open spec fn stable_order(keys: Seq<KeyView>, order: Seq<usize>) -> bool {
    &&& order.len() == keys.len()
    &&& forall|i: int| 0 <= i < order.len() ==> #[trigger] order[i] < keys.len()
    &&& forall|x: usize| x < keys.len() ==> #[trigger] order.contains(x)
    &&& forall|i: int, j: int|
        0 <= i < j < order.len() ==> before(
            keys,
            #[trigger] order[i] as int,
            #[trigger] order[j] as int,
        )
}

// ── Order laws ─────────────────────────────────────────────────────

/// The text order is strict and total.
pub proof fn law_text_order(a: Seq<char>, b: Seq<char>)
    ensures
        !text_lt(a, a),
        text_lt(a, b) ==> !text_lt(b, a),
        a == b || text_lt(a, b) || text_lt(b, a),
    decreases a.len(),
{
    if a.len() > 0 {
        law_text_order(
            a.drop_first(),
            if b.len() > 0 {
                b.drop_first()
            } else {
                b
            },
        );
        if b.len() > 0 && a[0] == b[0] && a.drop_first() == b.drop_first() {
            assert(a =~= seq![a[0]] + a.drop_first());
            assert(b =~= seq![b[0]] + b.drop_first());
        }
    } else if b.len() == 0 {
        assert(a =~= b);
    }
}

/// The text order is transitive.
pub proof fn law_text_transitive(a: Seq<char>, b: Seq<char>, c: Seq<char>)
    requires
        text_lt(a, b),
        text_lt(b, c),
    ensures
        text_lt(a, c),
    decreases a.len(),
{
    if a.len() > 0 && a[0] == b[0] && b[0] == c[0] {
        law_text_transitive(a.drop_first(), b.drop_first(), c.drop_first());
    }
}

proof fn lemma_parts_order(a: Seq<Seq<char>>, b: Seq<Seq<char>>)
    ensures
        !parts_lt(a, a),
        parts_lt(a, b) ==> !parts_lt(b, a),
        a == b || parts_lt(a, b) || parts_lt(b, a),
    decreases a.len(),
{
    if a.len() > 0 {
        lemma_parts_order(
            a.drop_first(),
            if b.len() > 0 {
                b.drop_first()
            } else {
                b
            },
        );
        if b.len() > 0 {
            law_text_order(a[0], b[0]);
            if a[0] == b[0] && a.drop_first() == b.drop_first() {
                assert(a =~= seq![a[0]] + a.drop_first());
                assert(b =~= seq![b[0]] + b.drop_first());
            }
        }
    } else if b.len() == 0 {
        assert(a =~= b);
    }
}

proof fn lemma_parts_transitive(a: Seq<Seq<char>>, b: Seq<Seq<char>>, c: Seq<Seq<char>>)
    requires
        parts_lt(a, b),
        parts_lt(b, c),
    ensures
        parts_lt(a, c),
    decreases a.len(),
{
    if a.len() > 0 {
        if a[0] == b[0] && b[0] == c[0] {
            lemma_parts_transitive(a.drop_first(), b.drop_first(), c.drop_first());
        } else if a[0] != b[0] && b[0] != c[0] {
            law_text_transitive(a[0], b[0], c[0]);
            law_text_order(a[0], c[0]);
        }
    }
}

/// Two different positions are in one order or the other, never in both.
pub proof fn law_before_total(keys: Seq<KeyView>, x: int, y: int)
    ensures
        !before(keys, x, x),
        x != y ==> (before(keys, x, y) <==> !before(keys, y, x)),
{
    lemma_parts_order(keys[x].parts, keys[y].parts);
    lemma_parts_order(keys[x].parts, keys[x].parts);
}

/// The order of positions is transitive.
pub proof fn law_before_transitive(keys: Seq<KeyView>, x: int, y: int, z: int)
    requires
        before(keys, x, y),
        before(keys, y, z),
    ensures
        before(keys, x, z),
{
    let (a, b, c) = (keys[x], keys[y], keys[z]);
    lemma_parts_order(a.parts, b.parts);
    lemma_parts_order(b.parts, c.parts);
    lemma_parts_order(a.parts, c.parts);
    if parts_lt(a.parts, b.parts) && parts_lt(b.parts, c.parts) {
        lemma_parts_transitive(a.parts, b.parts, c.parts);
    }
}

// ── Comparison ─────────────────────────────────────────────────────

/// Whether `a` comes before `b`, character by character.
pub fn text_less(a: &str, b: &str) -> (r: bool)
    ensures
        r == text_lt(a@, b@),
{
    let x = text::chars_of(a);
    let y = text::chars_of(b);
    let mut i: usize = 0;
    proof {
        assert(x@.skip(0) =~= x@);
        assert(y@.skip(0) =~= y@);
    }
    loop
        invariant
            i <= x@.len(),
            i <= y@.len(),
            text_lt(x@, y@) == text_lt(x@.skip(i as int), y@.skip(i as int)),
            x@ == a@,
            y@ == b@,
        decreases x@.len() - i,
    {
        if i >= y.len() {
            return false;
        }
        if i >= x.len() {
            return true;
        }
        if x[i] != y[i] {
            return x[i] < y[i];
        }
        proof {
            assert(x@.skip(i as int).drop_first() =~= x@.skip(i + 1));
            assert(y@.skip(i as int).drop_first() =~= y@.skip(i + 1));
        }
        i = i + 1;
    }
}

/// Whether `a` comes before `b`, part by part.
pub fn parts_less(a: &Vec<String>, b: &Vec<String>) -> (r: bool)
    ensures
        r == parts_lt(text::texts(a@), text::texts(b@)),
{
    let mut i: usize = 0;
    let ghost x = text::texts(a@);
    let ghost y = text::texts(b@);
    proof {
        assert(x.skip(0) =~= x);
        assert(y.skip(0) =~= y);
    }
    loop
        invariant
            i <= a@.len(),
            i <= b@.len(),
            x == text::texts(a@),
            y == text::texts(b@),
            parts_lt(x, y) == parts_lt(x.skip(i as int), y.skip(i as int)),
        decreases a@.len() - i,
    {
        if i >= b.len() {
            return false;
        }
        if i >= a.len() {
            return true;
        }
        proof {
            assert(x.skip(i as int)[0] == a@[i as int]@);
            assert(y.skip(i as int)[0] == b@[i as int]@);
        }
        if !text::same_text(a[i].as_str(), b[i].as_str()) {
            return text_less(a[i].as_str(), b[i].as_str());
        }
        proof {
            assert(x.skip(i as int).drop_first() =~= x.skip(i + 1));
            assert(y.skip(i as int).drop_first() =~= y.skip(i + 1));
        }
        i = i + 1;
    }
}

/// Whether key `a` comes before key `b`.
pub fn key_less(a: &SortKey, b: &SortKey) -> (r: bool)
    ensures
        r == key_lt(a@, b@),
{
    if a.rank != b.rank {
        a.rank < b.rank
    } else {
        parts_less(&a.parts, &b.parts)
    }
}

// ── Stable sort ────────────────────────────────────────────────────

/// Whether `r` lists the positions `lo..hi` in stable key order.
spec fn sorted_run(keys: Seq<KeyView>, r: Seq<usize>, lo: int, hi: int) -> bool {
    &&& r.len() == hi - lo
    &&& forall|i: int| 0 <= i < r.len() ==> lo <= #[trigger] r[i] < hi
    &&& forall|x: usize| lo <= x < hi ==> #[trigger] r.contains(x)
    &&& forall|i: int, j: int|
        0 <= i < j < r.len() ==> before(keys, #[trigger] r[i] as int, #[trigger] r[j] as int)
}

fn merge(keys: &Vec<SortKey>, a: &Vec<usize>, b: &Vec<usize>, lo: usize, mid: usize, hi: usize)
    -> (r: Vec<usize>)
    requires
        lo <= mid <= hi <= keys@.len(),
        sorted_run(key_views(keys@), a@, lo as int, mid as int),
        sorted_run(key_views(keys@), b@, mid as int, hi as int),
    ensures
        sorted_run(key_views(keys@), r@, lo as int, hi as int),
{
    let ghost ks = key_views(keys@);
    let mut r: Vec<usize> = Vec::new();
    let mut i: usize = 0;
    let mut j: usize = 0;
    while i < a.len() || j < b.len()
        invariant
            ks == key_views(keys@),
            lo <= mid <= hi <= keys@.len(),
            sorted_run(ks, a@, lo as int, mid as int),
            sorted_run(ks, b@, mid as int, hi as int),
            i <= a@.len(),
            j <= b@.len(),
            r@.len() == i + j,
            forall|k: int| 0 <= k < r@.len() ==> lo <= #[trigger] r@[k] < hi,
            forall|k: int| 0 <= k < i ==> r@.contains(#[trigger] a@[k]),
            forall|k: int| 0 <= k < j ==> r@.contains(#[trigger] b@[k]),
            forall|p: int, q: int|
                0 <= p < q < r@.len() ==> before(
                    ks,
                    #[trigger] r@[p] as int,
                    #[trigger] r@[q] as int,
                ),
            forall|p: int, k: int|
                0 <= p < r@.len() && i <= k < a@.len() ==> before(
                    ks,
                    #[trigger] r@[p] as int,
                    #[trigger] a@[k] as int,
                ),
            forall|p: int, k: int|
                0 <= p < r@.len() && j <= k < b@.len() ==> before(
                    ks,
                    #[trigger] r@[p] as int,
                    #[trigger] b@[k] as int,
                ),
        decreases a@.len() - i + b@.len() - j,
    {
        let left: bool = if i >= a.len() {
            false
        } else if j >= b.len() {
            true
        } else {
            !key_less(&keys[b[j]], &keys[a[i]])
        };
        let ghost old_r = r@;
        if left {
            let v: usize = a[i];
            proof {
                if j < b@.len() {
                    law_before_total(ks, v as int, b@[j as int] as int);
                    assert(before(ks, v as int, b@[j as int] as int));
                    assert forall|k: int| j <= k < b@.len() implies before(
                        ks,
                        v as int,
                        #[trigger] b@[k] as int,
                    ) by {
                        if k > j {
                            law_before_transitive(
                                ks,
                                v as int,
                                b@[j as int] as int,
                                b@[k] as int,
                            );
                        }
                    }
                }
            }
            r.push(v);
            i = i + 1;
        } else {
            let v: usize = b[j];
            proof {
                if i < a@.len() {
                    law_before_total(ks, v as int, a@[i as int] as int);
                    assert(before(ks, v as int, a@[i as int] as int));
                    assert forall|k: int| i <= k < a@.len() implies before(
                        ks,
                        v as int,
                        #[trigger] a@[k] as int,
                    ) by {
                        if k > i {
                            law_before_transitive(
                                ks,
                                v as int,
                                a@[i as int] as int,
                                a@[k] as int,
                            );
                        }
                    }
                }
            }
            r.push(v);
            j = j + 1;
        }
        proof {
            let n = old_r.len() as int;
            assert(forall|k: int| 0 <= k < n ==> r@[k] == old_r[k]);
            assert(r@[n] == (if left {
                a@[i - 1]
            } else {
                b@[j - 1]
            }));
            assert forall|x: usize| old_r.contains(x) implies r@.contains(x) by {
                let k = choose|k: int| 0 <= k < old_r.len() && old_r[k] == x;
                assert(r@[k] == x);
            }
            assert(r@.contains(r@[n]));
        }
    }
    proof {
        assert forall|x: usize| lo <= x < hi implies #[trigger] r@.contains(x) by {
            if x < mid {
                assert(a@.contains(x));
                let k = choose|k: int| 0 <= k < a@.len() && a@[k] == x;
                assert(r@.contains(a@[k]));
            } else {
                assert(b@.contains(x));
                let k = choose|k: int| 0 <= k < b@.len() && b@[k] == x;
                assert(r@.contains(b@[k]));
            }
        }
    }
    r
}

fn sort_run(keys: &Vec<SortKey>, lo: usize, hi: usize) -> (r: Vec<usize>)
    requires
        lo <= hi <= keys@.len(),
    ensures
        sorted_run(key_views(keys@), r@, lo as int, hi as int),
    decreases hi - lo,
{
    if lo == hi {
        Vec::new()
    } else if hi - lo == 1 {
        let mut r: Vec<usize> = Vec::new();
        r.push(lo);
        proof {
            assert(r@[0] == lo);
            assert(r@.contains(lo));
        }
        r
    } else {
        let mid: usize = lo + (hi - lo) / 2;
        let a = sort_run(keys, lo, mid);
        let b = sort_run(keys, mid, hi);
        merge(keys, &a, &b, lo, mid, hi)
    }
}

/// The stable order of `keys`.
pub open spec fn order_of(keys: Seq<KeyView>) -> Seq<usize> {
    choose|order: Seq<usize>| stable_order(keys, order)
}

/// The positions of `keys` in stable key order.
pub fn sorted_positions(keys: &Vec<SortKey>) -> (order: Vec<usize>)
    ensures
        stable_order(key_views(keys@), order@),
        order@ == order_of(key_views(keys@)),
{
    let order = sort_run(keys, 0, keys.len());
    proof {
        assert(stable_order(key_views(keys@), order@));
        law_stable_order_unique(key_views(keys@), order@, order_of(key_views(keys@)));
    }
    order
}

/// Every list of keys has a stable order, and `order_of` is it.
pub proof fn law_order_of(keys: Seq<KeyView>)
    requires
        keys.len() <= usize::MAX,
    ensures
        stable_order(keys, order_of(keys)),
        forall|order: Seq<usize>| stable_order(keys, order) ==> order == order_of(keys),
{
    let order = lemma_run_exists(keys, keys.len());
    assert(stable_order(keys, order));
    assert forall|o: Seq<usize>| stable_order(keys, o) implies o == order_of(keys) by {
        law_stable_order_unique(keys, o, order_of(keys));
    }
}

/// The first `n` positions have a stable order: each takes its place among
/// those before it.
proof fn lemma_run_exists(keys: Seq<KeyView>, n: nat) -> (r: Seq<usize>)
    requires
        n <= keys.len() <= usize::MAX,
    ensures
        sorted_run(keys, r, 0, n as int),
    decreases n,
{
    if n == 0 {
        Seq::empty()
    } else {
        let k = (n - 1) as usize;
        let before_k = lemma_run_exists(keys, (n - 1) as nat);
        let p = lemma_place(keys, before_k, k, before_k.len());
        let r = before_k.insert(p, k);
        assert forall|x: usize| 0 <= x < n implies #[trigger] r.contains(x) by {
            if x == k {
                assert(r[p] == x);
            } else {
                assert(before_k.contains(x));
                let i = choose|i: int| 0 <= i < before_k.len() && before_k[i] == x;
                if i < p {
                    assert(r[i] == x);
                } else {
                    assert(r[i + 1] == x);
                }
            }
        }
        r
    }
}

/// Where position `k` belongs among the first `n` positions of `r`.
proof fn lemma_place(keys: Seq<KeyView>, r: Seq<usize>, k: usize, n: nat) -> (p: int)
    requires
        n <= r.len(),
        forall|i: int| 0 <= i < n ==> #[trigger] r[i] < k,
        forall|i: int, j: int|
            0 <= i < j < r.len() ==> before(keys, #[trigger] r[i] as int, #[trigger] r[j] as int),
    ensures
        0 <= p <= n,
        forall|i: int| 0 <= i < p ==> before(keys, #[trigger] r[i] as int, k as int),
        forall|i: int| p <= i < n ==> before(keys, k as int, #[trigger] r[i] as int),
    decreases n,
{
    if n == 0 {
        0
    } else {
        let last = r[n - 1] as int;
        law_before_total(keys, last, k as int);
        if before(keys, last, k as int) {
            assert forall|i: int| 0 <= i < n implies before(
                keys,
                #[trigger] r[i] as int,
                k as int,
            ) by {
                if i < n - 1 {
                    law_before_transitive(keys, r[i] as int, last, k as int);
                }
            }
            n as int
        } else {
            lemma_place(keys, r, k, (n - 1) as nat)
        }
    }
}

/// Two stable orders of the same keys are the same order.
pub proof fn law_stable_order_unique(keys: Seq<KeyView>, a: Seq<usize>, b: Seq<usize>)
    requires
        stable_order(keys, a),
        stable_order(keys, b),
    ensures
        a == b,
{
    assert forall|n: int| 0 <= n < a.len() implies a[n] == b[n] by {
        lemma_agree(keys, a, b, n);
    }
    assert(a =~= b);
}

proof fn lemma_agree(keys: Seq<KeyView>, a: Seq<usize>, b: Seq<usize>, n: int)
    requires
        stable_order(keys, a),
        stable_order(keys, b),
        0 <= n < a.len(),
    ensures
        a[n] == b[n],
    decreases n,
{
    assert forall|k: int| 0 <= k < n implies a[k] == b[k] by {
        lemma_agree(keys, a, b, k);
    }
    if a[n] != b[n] {
        let x = a[n];
        let y = b[n];
        assert(b.contains(x));
        assert(a.contains(y));
        let i = choose|i: int| 0 <= i < b.len() && b[i] == x;
        let j = choose|j: int| 0 <= j < a.len() && a[j] == y;
        if i < n {
            assert(before(keys, a[i] as int, a[n] as int));
            law_before_total(keys, x as int, x as int);
        } else if j < n {
            assert(before(keys, b[j] as int, b[n] as int));
            law_before_total(keys, y as int, y as int);
        } else {
            assert(before(keys, b[n] as int, b[i] as int));
            assert(before(keys, a[n] as int, a[j] as int));
            law_before_total(keys, x as int, y as int);
        }
    }
}

// ── What the order goes by ─────────────────────────────────────────
/// Of two texts the one with the lower sign comes first where they first
/// differ, and a text comes before what continues it.
pub proof fn law_text_order_by_first_difference(
    base: Seq<char>,
    c: char,
    d: char,
    a: Seq<char>,
    b: Seq<char>,
)
    ensures
        text_lt(base, base.push(c) + a),
        c < d ==> text_lt(base.push(c) + a, base.push(d) + b),
    decreases base.len(),
{
    let (x, y) = (base.push(c) + a, base.push(d) + b);
    if base.len() > 0 {
        let rest = base.drop_first();
        law_text_order_by_first_difference(rest, c, d, a, b);
        assert(x.drop_first() =~= rest.push(c) + a);
        assert(y.drop_first() =~= rest.push(d) + b);
        assert(base[0] == x[0] && x[0] == y[0]);
    } else {
        assert(x[0] == c && y[0] == d);
    }
}

/// Of two lists of parts the one with the lower part comes first where they
/// first differ, and a list comes before what continues it.
pub proof fn law_parts_order_by_first_difference(
    base: Seq<Seq<char>>,
    c: Seq<char>,
    d: Seq<char>,
    a: Seq<Seq<char>>,
    b: Seq<Seq<char>>,
)
    ensures
        parts_lt(base, base.push(c) + a),
        text_lt(c, d) ==> parts_lt(base.push(c) + a, base.push(d) + b),
    decreases base.len(),
{
    let (x, y) = (base.push(c) + a, base.push(d) + b);
    if base.len() > 0 {
        let rest = base.drop_first();
        law_parts_order_by_first_difference(rest, c, d, a, b);
        assert(x.drop_first() =~= rest.push(c) + a);
        assert(y.drop_first() =~= rest.push(d) + b);
        assert(base[0] == x[0] && x[0] == y[0]);
    } else {
        assert(x[0] == c && y[0] == d);
        law_text_order(c, d);
    }
}

/// The rank decides, and only where it is the same do the parts.
pub proof fn law_rank_decides(a: KeyView, b: KeyView)
    ensures
        a.rank < b.rank ==> key_lt(a, b) && !key_lt(b, a),
        a.rank == b.rank ==> (key_lt(a, b) <==> parts_lt(a.parts, b.parts)),
{
}

/// What comes first has the lesser key, or the same one and the earlier place.
pub proof fn law_before_by_key_then_place(keys: Seq<KeyView>, x: int, y: int)
    ensures
        key_lt(keys[x], keys[y]) ==> before(keys, x, y),
        keys[x] == keys[y] ==> (before(keys, x, y) <==> x < y),
        before(keys, x, y) ==> !key_lt(keys[y], keys[x]),
{
    lemma_parts_order(keys[x].parts, keys[y].parts);
    lemma_parts_order(keys[x].parts, keys[x].parts);
}

} // verus!
