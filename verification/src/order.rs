//! Finding by key, sorting by key and sorting texts.

use crate::text;
use crate::text::to_chars;
use vstd::prelude::*;

verus! {

/// The first position from `i` on that holds `id`, or the length if there is none.
pub open spec fn at_from(keys: Seq<u64>, id: u64, i: int) -> int
    decreases keys.len() - i,
{
    if i >= keys.len() {
        keys.len() as int
    } else if keys[i] == id {
        i
    } else {
        at_from(keys, id, i + 1)
    }
}

/// The first position that holds `id`, or the length if there is none.
pub open spec fn at(keys: Seq<u64>, id: u64) -> int {
    at_from(keys, id, 0)
}

/// True of a row in which no key stands twice.
pub open spec fn distinct(keys: Seq<u64>) -> bool {
    forall|i: int, j: int| 0 <= i < j < keys.len() ==> keys[i] != keys[j]
}

proof fn lemma_at_from(keys: Seq<u64>, id: u64, i: int)
    requires
        0 <= i <= keys.len(),
    ensures
        i <= at_from(keys, id, i) <= keys.len(),
        at_from(keys, id, i) < keys.len() ==> keys[at_from(keys, id, i)] == id,
        forall|j: int| i <= j < at_from(keys, id, i) ==> keys[j] != id,
    decreases keys.len() - i,
{
    if i < keys.len() && keys[i] != id {
        lemma_at_from(keys, id, i + 1);
    }
}

/// What `at` gives is the first position of the key, and it gives one if there is one.
pub proof fn lemma_at(keys: Seq<u64>, id: u64)
    ensures
        0 <= at(keys, id) <= keys.len(),
        at(keys, id) < keys.len() ==> keys[at(keys, id)] == id,
        forall|j: int| 0 <= j < at(keys, id) ==> keys[j] != id,
{
    lemma_at_from(keys, id, 0);
}

/// In a row without repetition, the position of a key is the one position that holds it.
pub proof fn lemma_at_unique(keys: Seq<u64>, i: int)
    requires
        distinct(keys),
        0 <= i < keys.len(),
    ensures
        at(keys, keys[i]) == i,
{
    lemma_at(keys, keys[i]);
}

/// A key that stands nowhere can be added to a row without repetition.
pub proof fn lemma_distinct_push(keys: Seq<u64>, id: u64)
    requires
        distinct(keys),
        at(keys, id) == keys.len(),
    ensures
        distinct(keys.push(id)),
{
    lemma_at(keys, id);
}

/// `ord` with the position `k` put behind all positions whose key is not below that of `k`.
pub open spec fn place(keys: Seq<int>, ord: Seq<int>, k: int) -> Seq<int>
    decreases ord.len(),
{
    if ord.len() == 0 {
        seq![k]
    } else if keys[ord.last()] >= keys[k] {
        ord.push(k)
    } else {
        place(keys, ord.drop_last(), k).push(ord.last())
    }
}

/// The first `n` positions in descending order of their keys; positions with equal keys keep
/// their order.
pub open spec fn order_desc(keys: Seq<int>, n: int) -> Seq<int>
    decreases n,
{
    if n <= 0 {
        Seq::empty()
    } else {
        place(keys, order_desc(keys, n - 1), n - 1)
    }
}

/// True if the keys at these positions do not rise.
pub open spec fn descending(keys: Seq<int>, ord: Seq<int>) -> bool {
    forall|i: int, j: int| 0 <= i < j < ord.len() ==> keys[ord[i]] >= keys[ord[j]]
}

proof fn lemma_place(keys: Seq<int>, ord: Seq<int>, k: int)
    requires
        descending(keys, ord),
        !ord.contains(k),
        ord.no_duplicates(),
    ensures
        descending(keys, place(keys, ord, k)),
        place(keys, ord, k).len() == ord.len() + 1,
        place(keys, ord, k).no_duplicates(),
        forall|x: int| place(keys, ord, k).contains(x) <==> (ord.contains(x) || x == k),
    decreases ord.len(),
{
    let r = place(keys, ord, k);
    if ord.len() == 0 {
        assert(r[0] == k);
        assert(r.contains(k));
    } else if keys[ord.last()] >= keys[k] {
        assert forall|x: int| r.contains(x) <==> (ord.contains(x) || x == k) by {
            if ord.contains(x) {
                let i = ord.index_of(x);
                assert(r[i] == x);
            }
            assert(r[ord.len() as int] == k);
        }
    } else {
        let d = ord.drop_last();
        assert forall|x: int| d.contains(x) implies ord.contains(x) by {
            let i = d.index_of(x);
            assert(ord[i] == x);
        }
        lemma_place(keys, d, k);
        let p = place(keys, d, k);
        assert forall|x: int| r.contains(x) <==> (ord.contains(x) || x == k) by {
            assert(r.last() == ord.last());
            if r.contains(x) {
                let i = r.index_of(x);
                if i < p.len() {
                    assert(p[i] == x);
                    assert(p.contains(x));
                } else {
                    assert(ord[ord.len() - 1] == x);
                }
            }
            if p.contains(x) {
                let i = p.index_of(x);
                assert(r[i] == x);
            }
            if ord.contains(x) {
                let i = ord.index_of(x);
                if i < d.len() {
                    assert(d[i] == x);
                    assert(d.contains(x));
                } else {
                    assert(r[r.len() - 1] == x);
                }
            }
        }
        assert forall|i: int, j: int| 0 <= i < j < r.len() implies keys[r[i]] >= keys[r[j]] by {
            if j == r.len() - 1 {
                assert(p.contains(p[i]));
                if d.contains(p[i]) {
                    let m = d.index_of(p[i]);
                    assert(ord[m] == p[i]);
                }
            }
        }
        assert forall|i: int, j: int| 0 <= i < r.len() && 0 <= j < r.len() && i != j implies r[i]
            != r[j] by {
            let last = ord.len() - 1;
            if i == r.len() - 1 && p[j] == ord.last() {
                assert(p.contains(p[j]));
                if d.contains(p[j]) {
                    let m = d.index_of(p[j]);
                    assert(ord[m] == ord[last]);
                }
            }
            if j == r.len() - 1 && p[i] == ord.last() {
                assert(p.contains(p[i]));
                if d.contains(p[i]) {
                    let m = d.index_of(p[i]);
                    assert(ord[m] == ord[last]);
                }
            }
        }
    }
}

/// Sorting lists each of the first `n` positions once, with keys that do not rise.
pub proof fn lemma_order_desc(keys: Seq<int>, n: int)
    requires
        0 <= n,
    ensures
        descending(keys, order_desc(keys, n)),
        order_desc(keys, n).len() == n,
        order_desc(keys, n).no_duplicates(),
        forall|x: int| order_desc(keys, n).contains(x) <==> 0 <= x < n,
    decreases n,
{
    if n > 0 {
        lemma_order_desc(keys, n - 1);
        lemma_place(keys, order_desc(keys, n - 1), n - 1);
        assert forall|x: int| order_desc(keys, n).contains(x) <==> 0 <= x < n by {
            assert(order_desc(keys, n - 1).contains(x) <==> 0 <= x < n - 1);
        }
    }
}

proof fn lemma_place_insert(keys: Seq<int>, ord: Seq<int>, k: int, p: int)
    requires
        0 <= p <= ord.len(),
        forall|j: int| p <= j < ord.len() ==> keys[ord[j]] < keys[k],
        p > 0 ==> keys[ord[p - 1]] >= keys[k],
    ensures
        place(keys, ord, k) == ord.insert(p, k),
    decreases ord.len(),
{
    if ord.len() == 0 {
        assert(ord.insert(p, k) =~= seq![k]);
    } else if p == ord.len() {
        assert(ord.insert(p, k) =~= ord.push(k));
    } else {
        lemma_place_insert(keys, ord.drop_last(), k, p);
        assert(ord.insert(p, k) =~= ord.drop_last().insert(p, k).push(ord.last()));
    }
}

/// A row of keys as integers.
pub open spec fn ints(v: Seq<i128>) -> Seq<int> {
    Seq::new(v.len(), |i: int| v[i] as int)
}

/// A row of positions as integers.
pub open spec fn positions(v: Seq<usize>) -> Seq<int> {
    Seq::new(v.len(), |i: int| v[i] as int)
}

/// The positions of `keys` in descending order of the keys; equal keys keep their order.
pub fn sort_desc(keys: &Vec<i128>) -> (r: Vec<usize>)
    ensures
        positions(r@) == order_desc(ints(keys@), keys@.len() as int),
        r@.len() == keys@.len(),
        forall|i: int| 0 <= i < r@.len() ==> (#[trigger] r@[i]) < keys@.len(),
{
    let mut r: Vec<usize> = Vec::new();
    let mut k: usize = 0;
    assert(positions(r@) =~= order_desc(ints(keys@), 0));
    while k < keys.len()
        invariant
            k <= keys@.len(),
            r@.len() == k,
            positions(r@) == order_desc(ints(keys@), k as int),
            forall|i: int| 0 <= i < r@.len() ==> (#[trigger] r@[i]) < keys@.len(),
        decreases keys@.len() - k,
    {
        let mut p: usize = r.len();
        while p > 0 && keys[r[p - 1]] < keys[k]
            invariant
                k < keys@.len(),
                p <= r@.len(),
                forall|i: int| 0 <= i < r@.len() ==> (#[trigger] r@[i]) < keys@.len(),
                forall|j: int| p <= j < r@.len() ==> keys@[(#[trigger] r@[j]) as int] < keys@[k as int],
            decreases p,
        {
            p = p - 1;
        }
        let ghost before = positions(r@);
        proof {
            assert forall|j: int| p <= j < before.len() implies ints(keys@)[before[j]] < ints(
                keys@,
            )[k as int] by {
                assert(keys@[r@[j] as int] < keys@[k as int]);
            }
            lemma_place_insert(ints(keys@), before, k as int, p as int);
        }
        let ghost rows = r@;
        r.insert(p, k);
        proof {
            assert(positions(r@) =~= before.insert(p as int, k as int));
            assert forall|i: int| 0 <= i < r@.len() implies (#[trigger] r@[i]) < keys@.len() by {
                if i < p {
                    assert(r@[i] == rows[i]);
                } else if i > p {
                    assert(r@[i] == rows[i - 1]);
                }
            }
        }
        k = k + 1;
    }
    r
}

// ---------------------------------------------------------------------------
// Sorting texts
// ---------------------------------------------------------------------------

/// True of a text that stands before another in the order of characters.
pub open spec fn text_before(a: Seq<char>, b: Seq<char>) -> bool
    decreases a.len(),
{
    if b.len() == 0 {
        false
    } else if a.len() == 0 {
        true
    } else if a[0] != b[0] {
        a[0] < b[0]
    } else {
        text_before(a.skip(1), b.skip(1))
    }
}

/// A sorted row with one more text, behind those that do not stand after it.
pub open spec fn inserted(s: Seq<Seq<char>>, t: Seq<char>) -> Seq<Seq<char>>
    decreases s.len(),
{
    if s.len() == 0 || !text_before(t, s.last()) {
        s.push(t)
    } else {
        inserted(s.drop_last(), t).push(s.last())
    }
}

/// Texts in the order of characters.
pub open spec fn sorted(s: Seq<Seq<char>>) -> Seq<Seq<char>>
    decreases s.len(),
{
    if s.len() == 0 {
        Seq::empty()
    } else {
        inserted(sorted(s.drop_last()), s.last())
    }
}

/// True of a row in which no text stands before an earlier one.
pub open spec fn in_order(s: Seq<Seq<char>>) -> bool {
    forall|i: int, j: int| 0 <= i < j < s.len() ==> !text_before(#[trigger] s[j], #[trigger] s[i])
}

fn before(a: &[char], b: &[char]) -> (r: bool)
    ensures
        r == text_before(a@, b@),
{
    let mut i: usize = 0;
    assert(a@.skip(0) =~= a@);
    assert(b@.skip(0) =~= b@);
    while i < a.len() && i < b.len()
        invariant
            i <= a@.len(),
            i <= b@.len(),
            text_before(a@, b@) == text_before(a@.skip(i as int), b@.skip(i as int)),
        decreases a@.len() - i,
    {
        assert(a@.skip(i as int)[0] == a@[i as int]);
        assert(b@.skip(i as int)[0] == b@[i as int]);
        if a[i] != b[i] {
            return a[i] < b[i];
        }
        assert(a@.skip(i as int).skip(1) =~= a@.skip(i + 1));
        assert(b@.skip(i as int).skip(1) =~= b@.skip(i + 1));
        i = i + 1;
    }
    i < b.len()
}

/// Puts a text into a sorted row.
pub fn insert_text(names: &mut Vec<String>, t: String)
    ensures
        text::texts(final(names)@) == inserted(text::texts(old(names)@), t@),
{
    let tc = to_chars(t.as_str());
    let ghost s = text::texts(names@);
    let mut i: usize = names.len();
    assert(s.take(i as int) =~= s);
    assert(inserted(s, t@) =~= inserted(s.take(i as int), t@) + s.skip(i as int));
    while i > 0
        invariant
            i <= names@.len(),
            names@ == old(names)@,
            s == text::texts(names@),
            tc@ == t@,
            inserted(s, t@) == inserted(s.take(i as int), t@) + s.skip(i as int),
        ensures
            i <= names@.len(),
            inserted(s, t@) == s.take(i as int).push(t@) + s.skip(i as int),
        decreases i,
    {
        let other = to_chars(names[i - 1].as_str());
        assert(s.take(i as int).last() == other@);
        if !before(&tc, &other) {
            break ;
        }
        assert(s.take(i as int).drop_last() =~= s.take(i - 1));
        assert(inserted(s, t@) =~= inserted(s.take(i - 1), t@) + s.skip(i - 1));
        i = i - 1;
        if i == 0 {
            assert(inserted(s.take(0), t@) =~= s.take(0).push(t@));
        }
    }
    names.insert(i, t);
    assert(text::texts(names@) =~= s.take(i as int).push(t@) + s.skip(i as int));
}

/// Sorts texts.
pub fn sort_texts(v: &[String]) -> (names: Vec<String>)
    ensures
        text::texts(names@) == sorted(text::texts(v@)),
{
    let mut names: Vec<String> = Vec::new();
    let ghost all = text::texts(v@);
    let mut i: usize = 0;
    assert(text::texts(names@) =~= sorted(all.take(0)));
    while i < v.len()
        invariant
            i <= v@.len(),
            all == text::texts(v@),
            text::texts(names@) == sorted(all.take(i as int)),
        decreases v@.len() - i,
    {
        assert(all.take(i + 1).drop_last() =~= all.take(i as int));
        assert(all[i as int] == v@[i as int]@);
        insert_text(&mut names, v[i].clone());
        i = i + 1;
    }
    assert(all.take(i as int) =~= all);
    names
}

/// Sorting puts texts in order, and keeps each as often as it was there.
pub proof fn law_sorted(s: Seq<Seq<char>>)
    ensures
        in_order(sorted(s)),
        sorted(s).to_multiset() =~= s.to_multiset(),
    decreases s.len(),
{
    broadcast use vstd::seq_lib::group_to_multiset_ensures;

    if s.len() > 0 {
        law_sorted(s.drop_last());
        lemma_inserted(sorted(s.drop_last()), s.last());
        lemma_inserted_multiset(sorted(s.drop_last()), s.last());
        assert(s =~= s.drop_last().push(s.last()));
    } else {
        assert(s =~= Seq::<Seq<char>>::empty());
    }
}

/// Inserting adds one text.
pub proof fn lemma_inserted_multiset(s: Seq<Seq<char>>, t: Seq<char>)
    ensures
        inserted(s, t).to_multiset() =~= s.to_multiset().insert(t),
    decreases s.len(),
{
    broadcast use vstd::seq_lib::group_to_multiset_ensures;

    if s.len() > 0 && text_before(t, s.last()) {
        lemma_inserted_multiset(s.drop_last(), t);
        assert(s =~= s.drop_last().push(s.last()));
    }
}

proof fn lemma_text_order(a: Seq<char>, b: Seq<char>, c: Seq<char>)
    ensures
        !text_before(a, a),
        text_before(a, b) ==> !text_before(b, a),
        text_before(a, b) ==> text_before(a, c) || text_before(c, b),
    decreases a.len() + b.len() + c.len(),
{
    if a.len() > 0 && b.len() > 0 && c.len() > 0 {
        lemma_text_order(a.skip(1), b.skip(1), c.skip(1));
    } else if a.len() > 0 && b.len() > 0 {
        lemma_text_order(a.skip(1), b.skip(1), c);
    } else if a.len() > 0 {
        lemma_text_order(a.skip(1), b, c);
    }
}

/// A sorted row stays sorted, and nothing but the text is new in it.
pub proof fn lemma_inserted(s: Seq<Seq<char>>, t: Seq<char>)
    requires
        in_order(s),
    ensures
        in_order(inserted(s, t)),
        inserted(s, t).len() == s.len() + 1,
        forall|i: int|
            0 <= i < inserted(s, t).len() ==> (#[trigger] inserted(s, t)[i] == t) || s.contains(
                inserted(s, t)[i],
            ),
    decreases s.len(),
{
    let r = inserted(s, t);
    if s.len() == 0 || !text_before(t, s.last()) {
        assert forall|i: int, j: int| 0 <= i < j < r.len() implies !text_before(
            #[trigger] r[j],
            #[trigger] r[i],
        ) by {
            if j == s.len() {
                if i < s.len() - 1 {
                    assert(!text_before(s[s.len() - 1], s[i]));
                    if text_before(t, s[i]) {
                        lemma_text_order(t, s[i], s.last());
                    }
                }
            } else {
                assert(r[j] == s[j] && r[i] == s[i]);
            }
        }
        assert forall|i: int| 0 <= i < r.len() implies (#[trigger] r[i] == t) || s.contains(r[i]) by {
            if i < s.len() {
                assert(s[i] == r[i]);
            }
        }
    } else {
        let q = inserted(s.drop_last(), t);
        lemma_inserted(s.drop_last(), t);
        assert forall|i: int, j: int| 0 <= i < j < r.len() implies !text_before(
            #[trigger] r[j],
            #[trigger] r[i],
        ) by {
            if j == q.len() {
                assert(r[i] == q[i]);
                assert(r[j] == s.last());
                if q[i] == t {
                    lemma_text_order(t, s.last(), t);
                } else {
                    assert(s.drop_last().contains(q[i]));
                    let k = choose|k: int| 0 <= k < s.drop_last().len() && s.drop_last()[k] == q[i];
                    assert(s[k] == q[i]);
                    assert(!text_before(s[s.len() - 1], s[k]));
                }
            } else {
                assert(r[j] == q[j] && r[i] == q[i]);
            }
        }
        assert forall|i: int| 0 <= i < r.len() implies (#[trigger] r[i] == t) || s.contains(r[i]) by {
            if i < q.len() {
                assert(r[i] == q[i]);
                if q[i] != t {
                    let k = choose|k: int| 0 <= k < s.drop_last().len() && s.drop_last()[k] == q[i];
                    assert(s[k] == q[i]);
                }
            } else {
                assert(r[i] == s[s.len() - 1]);
            }
        }
    }
}

proof fn lemma_place_stable(keys: Seq<int>, ord: Seq<int>, k: int)
    requires
        forall|i: int, j: int|
            0 <= i < j < ord.len() ==> keys[#[trigger] ord[i]] > keys[#[trigger] ord[j]]
                || keys[ord[i]] == keys[ord[j]] && ord[i] < ord[j],
        forall|i: int| 0 <= i < ord.len() ==> #[trigger] ord[i] < k,
    ensures
        ({
            let r = place(keys, ord, k);
            &&& forall|i: int, j: int|
                0 <= i < j < r.len() ==> keys[#[trigger] r[i]] > keys[#[trigger] r[j]]
                    || keys[r[i]] == keys[r[j]] && r[i] < r[j]
            &&& forall|i: int| 0 <= i < r.len() ==> #[trigger] r[i] <= k
            &&& forall|i: int|
                0 <= i < r.len() ==> #[trigger] r[i] == k || exists|j: int|
                    0 <= j < ord.len() && ord[j] == r[i]
        }),
    decreases ord.len(),
{
    let r = place(keys, ord, k);
    if ord.len() == 0 {
    } else if keys[ord.last()] >= keys[k] {
        assert forall|i: int| 0 <= i < r.len() implies #[trigger] r[i] == k || exists|j: int|
            0 <= j < ord.len() && ord[j] == r[i] by {
            if i < ord.len() {
                assert(ord[i] == r[i]);
            }
        }
        assert forall|i: int, j: int| 0 <= i < j < r.len() implies keys[#[trigger] r[i]]
            > keys[#[trigger] r[j]] || keys[r[i]] == keys[r[j]] && r[i] < r[j] by {
            if j == ord.len() && i < ord.len() - 1 {
                assert(keys[ord[i]] >= keys[ord[ord.len() - 1]]);
            }
        }
    } else {
        let d = ord.drop_last();
        assert forall|i: int, j: int| 0 <= i < j < d.len() implies keys[#[trigger] d[i]]
            > keys[#[trigger] d[j]] || keys[d[i]] == keys[d[j]] && d[i] < d[j] by {
            assert(keys[ord[i]] >= keys[ord[j]]);
        }
        lemma_place_stable(keys, d, k);
        let p = place(keys, d, k);
        assert forall|i: int| 0 <= i < r.len() implies #[trigger] r[i] == k || exists|j: int|
            0 <= j < ord.len() && ord[j] == r[i] by {
            if i < p.len() {
                assert(r[i] == p[i]);
                if p[i] != k {
                    let j = choose|j: int| 0 <= j < d.len() && d[j] == p[i];
                    assert(ord[j] == r[i]);
                }
            } else {
                assert(ord[ord.len() - 1] == r[i]);
            }
        }
        assert forall|i: int, j: int| 0 <= i < j < r.len() implies keys[#[trigger] r[i]]
            > keys[#[trigger] r[j]] || keys[r[i]] == keys[r[j]] && r[i] < r[j] by {
            assert(r[i] == p[i]);
            if j == p.len() {
                assert(r[j] == ord[ord.len() - 1]);
                if p[i] != k {
                    let m = choose|m: int| 0 <= m < d.len() && d[m] == p[i];
                    assert(ord[m] == p[i]);
                }
            } else {
                assert(r[j] == p[j]);
            }
        }
    }
}

proof fn lemma_order_stable(keys: Seq<int>, n: int)
    requires
        0 <= n,
    ensures
        ({
            let r = order_desc(keys, n);
            &&& forall|i: int, j: int|
                0 <= i < j < r.len() ==> keys[#[trigger] r[i]] > keys[#[trigger] r[j]]
                    || keys[r[i]] == keys[r[j]] && r[i] < r[j]
            &&& forall|i: int| 0 <= i < r.len() ==> #[trigger] r[i] < n
        }),
    decreases n,
{
    if n > 0 {
        lemma_order_stable(keys, n - 1);
        lemma_place_stable(keys, order_desc(keys, n - 1), n - 1);
    }
}

/// Sorting by keys puts every position exactly once, the highest key first, and of equal keys the
/// first position first.
pub proof fn law_highest_first(keys: Seq<int>)
    ensures
        ({
            let r = order_desc(keys, keys.len() as int);
            &&& r.len() == keys.len()
            &&& r.no_duplicates()
            &&& forall|x: int| #[trigger] r.contains(x) <==> 0 <= x < keys.len()
            &&& forall|i: int, j: int|
                0 <= i < j < r.len() ==> keys[#[trigger] r[i]] > keys[#[trigger] r[j]]
                    || keys[r[i]] == keys[r[j]] && r[i] < r[j]
        }),
{
    lemma_order_desc(keys, keys.len() as int);
    lemma_order_stable(keys, keys.len() as int);
}

} // verus!
