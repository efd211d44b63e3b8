//! The order of the rows in a listing.

use vstd::prelude::*;

verus! {

/// `a` comes before `b` character by character, as `str` orders text.
pub open spec fn text_less(a: Seq<char>, b: Seq<char>) -> bool
    decreases a.len(),
{
    if b.len() == 0 {
        false
    } else if a.len() == 0 {
        true
    } else if a[0] != b[0] {
        a[0] < b[0]
    } else {
        text_less(a.drop_first(), b.drop_first())
    }
}

/// What a row is ordered by: a number, then a text, then the name.
#[verifier::ext_equal]
pub struct KeyView {
    pub rank: int,
    pub text: Seq<char>,
    pub name: Seq<char>,
}

/// `a` comes before `b`.
pub open spec fn key_less(a: KeyView, b: KeyView) -> bool {
    ||| a.rank < b.rank
    ||| a.rank == b.rank && (text_less(a.text, b.text) || (a.text == b.text && text_less(
        a.name,
        b.name,
    )))
}

/// Row `i` comes before row `j`: by their keys, the other way round when descending; rows with
/// equal keys stay in the order of their indices.
pub open spec fn precedes(keys: Seq<KeyView>, desc: bool, i: int, j: int) -> bool {
    ||| if desc {
        key_less(keys[j], keys[i])
    } else {
        key_less(keys[i], keys[j])
    }
    ||| keys[i] == keys[j] && i < j
}

/// The indices in `rows` are in range, and each comes before all that follow it.
pub open spec fn in_order(rows: Seq<int>, keys: Seq<KeyView>, desc: bool) -> bool {
    &&& forall|i: int| 0 <= i < rows.len() ==> 0 <= #[trigger] rows[i] < keys.len()
    &&& forall|i: int, j: int|
        0 <= i < j < rows.len() ==> precedes(keys, desc, #[trigger] rows[i], #[trigger] rows[j])
}

/// `rows` holds just the indices that are shown, each once, in order.
pub open spec fn is_arrangement(
    rows: Seq<int>,
    keys: Seq<KeyView>,
    shown: Seq<bool>,
    desc: bool,
) -> bool {
    &&& in_order(rows, keys, desc)
    &&& forall|i: int| #[trigger]
        rows.contains(i) <==> 0 <= i < keys.len() && i < shown.len() && shown[i]
}

/// The indices that are shown, in order.
pub open spec fn arranged(keys: Seq<KeyView>, shown: Seq<bool>, desc: bool) -> Seq<int> {
    choose|rows: Seq<int>| is_arrangement(rows, keys, shown, desc)
}

// ------------------------------------------------------------------ it is a total order

/// Of two texts one comes first, or they are the same; never both.
pub proof fn text_order_is_total(a: Seq<char>, b: Seq<char>)
    ensures
        text_less(a, b) || text_less(b, a) || a == b,
        !(text_less(a, b) && text_less(b, a)),
        !text_less(a, a),
    decreases a.len(),
{
    if a.len() > 0 {
        text_order_is_total(a.drop_first(), a.drop_first());
        if b.len() > 0 && a[0] == b[0] {
            text_order_is_total(a.drop_first(), b.drop_first());
            if a.drop_first() == b.drop_first() {
                assert(a =~= b) by {
                    assert(seq![a[0]] + a.drop_first() =~= a);
                    assert(seq![b[0]] + b.drop_first() =~= b);
                }
            }
        }
    } else if b.len() == 0 {
        assert(a =~= b);
    }
}

/// The order of texts is transitive.
pub proof fn text_order_is_transitive(a: Seq<char>, b: Seq<char>, c: Seq<char>)
    requires
        text_less(a, b),
        text_less(b, c),
    ensures
        text_less(a, c),
    decreases a.len(),
{
    if a.len() > 0 && b.len() > 0 && c.len() > 0 && a[0] == b[0] && b[0] == c[0] {
        text_order_is_transitive(a.drop_first(), b.drop_first(), c.drop_first());
    }
}

proof fn lemma_key_total(a: KeyView, b: KeyView)
    ensures
        key_less(a, b) || key_less(b, a) || a == b,
        !(key_less(a, b) && key_less(b, a)),
        !key_less(a, a),
{
    text_order_is_total(a.text, b.text);
    text_order_is_total(a.name, b.name);
    text_order_is_total(a.text, a.text);
    text_order_is_total(a.name, a.name);
}

proof fn lemma_key_transitive(a: KeyView, b: KeyView, c: KeyView)
    requires
        key_less(a, b),
        key_less(b, c),
    ensures
        key_less(a, c),
{
    if a.rank == b.rank && b.rank == c.rank {
        if text_less(a.text, b.text) && text_less(b.text, c.text) {
            text_order_is_transitive(a.text, b.text, c.text);
        }
        if text_less(a.name, b.name) && text_less(b.name, c.name) {
            text_order_is_transitive(a.name, b.name, c.name);
        }
    }
}

/// Of two different rows just one comes first, and none comes before itself.
pub proof fn precedes_is_total(keys: Seq<KeyView>, desc: bool, i: int, j: int)
    ensures
        i != j ==> precedes(keys, desc, i, j) != precedes(keys, desc, j, i),
        !precedes(keys, desc, i, i),
{
    lemma_key_total(keys[i], keys[j]);
    lemma_key_total(keys[i], keys[i]);
}

/// The order of rows is transitive.
pub proof fn precedes_is_transitive(keys: Seq<KeyView>, desc: bool, i: int, j: int, k: int)
    requires
        precedes(keys, desc, i, j),
        precedes(keys, desc, j, k),
    ensures
        precedes(keys, desc, i, k),
{
    let (a, b, c) = (keys[i], keys[j], keys[k]);
    if desc {
        if key_less(b, a) && key_less(c, b) {
            lemma_key_transitive(c, b, a);
        }
    } else {
        if key_less(a, b) && key_less(b, c) {
            lemma_key_transitive(a, b, c);
        }
    }
}

/// There is at most one arrangement.
proof fn lemma_arrangement_unique(
    a: Seq<int>,
    b: Seq<int>,
    keys: Seq<KeyView>,
    desc: bool,
)
    requires
        in_order(a, keys, desc),
        in_order(b, keys, desc),
        forall|i: int| #[trigger] a.contains(i) <==> b.contains(i),
    ensures
        a == b,
    decreases a.len(),
{
    if a.len() == 0 {
        if b.len() > 0 {
            assert(b.contains(b[0]));
            assert(a.contains(b[0]));
        }
        assert(a =~= b);
    } else {
        let x = a.last();
        assert(a.contains(x));
        assert(b.contains(x));
        let y = b.last();
        assert(b.contains(y));
        assert(a.contains(y));
        let p = choose|p: int| 0 <= p < b.len() && b[p] == x;
        let q = choose|q: int| 0 <= q < a.len() && a[q] == y;
        precedes_is_total(keys, desc, x, y);
        if x != y {
            assert(precedes(keys, desc, b[p], b[b.len() - 1]));
            assert(precedes(keys, desc, a[q], a[a.len() - 1]));
        }
        let a1 = a.drop_last();
        let b1 = b.drop_last();
        precedes_is_total(keys, desc, x, x);
        assert forall|i: int| #[trigger] a1.contains(i) <==> b1.contains(i) by {
            if a1.contains(i) {
                let k = choose|k: int| 0 <= k < a1.len() && a1[k] == i;
                assert(a[k] == i);
                assert(a.contains(i));
                assert(b.contains(i));
                let m = choose|m: int| 0 <= m < b.len() && b[m] == i;
                assert(precedes(keys, desc, a[k], a[a.len() - 1]));
                assert(i != x);
                assert(b1[m] == i);
            }
            if b1.contains(i) {
                let k = choose|k: int| 0 <= k < b1.len() && b1[k] == i;
                assert(b[k] == i);
                assert(b.contains(i));
                assert(a.contains(i));
                let m = choose|m: int| 0 <= m < a.len() && a[m] == i;
                assert(precedes(keys, desc, b[k], b[b.len() - 1]));
                assert(i != x);
                assert(a1[m] == i);
            }
        }
        assert(in_order(a1, keys, desc)) by {
            assert forall|i: int| 0 <= i < a1.len() implies 0 <= #[trigger] a1[i] < keys.len() by {
                assert(a1[i] == a[i]);
            }
            assert forall|i: int, j: int| 0 <= i < j < a1.len() implies precedes(
                keys,
                desc,
                #[trigger] a1[i],
                #[trigger] a1[j],
            ) by {
                assert(a1[i] == a[i] && a1[j] == a[j]);
            }
        }
        assert(in_order(b1, keys, desc)) by {
            assert forall|i: int| 0 <= i < b1.len() implies 0 <= #[trigger] b1[i] < keys.len() by {
                assert(b1[i] == b[i]);
            }
            assert forall|i: int, j: int| 0 <= i < j < b1.len() implies precedes(
                keys,
                desc,
                #[trigger] b1[i],
                #[trigger] b1[j],
            ) by {
                assert(b1[i] == b[i] && b1[j] == b[j]);
            }
        }
        lemma_arrangement_unique(a1, b1, keys, desc);
        assert(a =~= a1.push(x));
        assert(b =~= b1.push(y));
    }
}

// ------------------------------------------------------------------ the code

/// What a row is ordered by.
#[derive(Debug)]
pub struct Key {
    pub rank: u64,
    pub text: Vec<char>,
    pub name: Vec<char>,
}

impl View for Key {
    type V = KeyView;

    open spec fn view(&self) -> KeyView {
        KeyView { rank: self.rank as int, text: self.text@, name: self.name@ }
    }
}

/// The views of some keys.
pub open spec fn key_views(v: Seq<Key>) -> Seq<KeyView> {
    v.map_values(|k: Key| k@)
}

/// The mathematical values of some indices.
pub open spec fn indices(v: Seq<usize>) -> Seq<int> {
    v.map_values(|i: usize| i as int)
}

/// Whether `a` comes before `b`.
fn is_text_less(a: &[char], b: &[char]) -> (r: bool)
    ensures
        r == text_less(a@, b@),
{
    let mut i: usize = 0;
    assert(a@.skip(0) =~= a@);
    assert(b@.skip(0) =~= b@);
    while i < a.len() && i < b.len()
        invariant
            i <= a.len(),
            i <= b.len(),
            text_less(a@, b@) == text_less(a@.skip(i as int), b@.skip(i as int)),
        decreases a.len() - i,
    {
        assert(a@.skip(i as int).drop_first() =~= a@.skip(i + 1));
        assert(b@.skip(i as int).drop_first() =~= b@.skip(i + 1));
        assert(a@.skip(i as int)[0] == a@[i as int]);
        assert(b@.skip(i as int)[0] == b@[i as int]);
        if a[i] != b[i] {
            return a[i] < b[i];
        }
        i += 1;
    }
    i < b.len()
}

fn is_key_less(a: &Key, b: &Key) -> (r: bool)
    ensures
        r == key_less(a@, b@),
{
    if a.rank != b.rank {
        return a.rank < b.rank;
    }
    if is_text_less(&a.text, &b.text) {
        return true;
    }
    crate::text::same(&a.text, &b.text) && is_text_less(&a.name, &b.name)
}

fn comes_first(keys: &Vec<Key>, desc: bool, i: usize, j: usize) -> (r: bool)
    requires
        i < keys.len(),
        j < keys.len(),
    ensures
        r == precedes(key_views(keys@), desc, i as int, j as int),
{
    let ghost ks = key_views(keys@);
    assert(ks[i as int] == keys@[i as int]@);
    assert(ks[j as int] == keys@[j as int]@);
    proof {
        lemma_key_total(ks[i as int], ks[j as int]);
    }
    if is_key_less(&keys[i], &keys[j]) {
        return !desc;
    }
    if is_key_less(&keys[j], &keys[i]) {
        return desc;
    }
    i < j
}

/// The place of row `x` among rows that are in order: how many of them come before it.
fn place(rows: &Vec<usize>, keys: &Vec<Key>, desc: bool, x: usize) -> (r: usize)
    requires
        x < keys.len(),
        in_order(indices(rows@), key_views(keys@), desc),
        !indices(rows@).contains(x as int),
    ensures
        r <= rows.len(),
        forall|i: int|
            0 <= i < r ==> precedes(
                key_views(keys@),
                desc,
                #[trigger] indices(rows@)[i],
                x as int,
            ),
        forall|i: int|
            r <= i < rows.len() ==> precedes(
                key_views(keys@),
                desc,
                x as int,
                #[trigger] indices(rows@)[i],
            ),
{
    let ghost ks = key_views(keys@);
    let ghost rs = indices(rows@);
    let mut lo: usize = 0;
    let mut hi: usize = rows.len();
    while lo < hi
        invariant
            lo <= hi <= rows.len(),
            x < keys.len(),
            ks == key_views(keys@),
            rs == indices(rows@),
            rs.len() == rows.len(),
            in_order(rs, ks, desc),
            !rs.contains(x as int),
            forall|i: int| 0 <= i < lo ==> precedes(ks, desc, #[trigger] rs[i], x as int),
            forall|i: int| hi <= i < rs.len() ==> precedes(ks, desc, x as int, #[trigger] rs[i]),
        decreases hi - lo,
    {
        let mid: usize = lo + (hi - lo) / 2;
        let m: usize = rows[mid];
        assert(rs[mid as int] == m);
        assert(rs.contains(m as int));
        proof {
            precedes_is_total(ks, desc, m as int, x as int);
        }
        if comes_first(keys, desc, m, x) {
            assert forall|i: int| 0 <= i < mid + 1 implies precedes(
                ks,
                desc,
                #[trigger] rs[i],
                x as int,
            ) by {
                if i < mid {
                    precedes_is_transitive(ks, desc, rs[i], rs[mid as int], x as int);
                }
            }
            lo = mid + 1;
        } else {
            assert forall|i: int| mid <= i < rs.len() implies precedes(
                ks,
                desc,
                x as int,
                #[trigger] rs[i],
            ) by {
                if i > mid {
                    precedes_is_transitive(ks, desc, x as int, rs[mid as int], rs[i]);
                }
            }
            hi = mid;
        }
    }
    lo
}

/// The indices that are shown, in order.
pub fn arrange(keys: &Vec<Key>, shown: &Vec<bool>, desc: bool) -> (r: Vec<usize>)
    requires
        keys.len() == shown.len(),
    ensures
        indices(r@) == arranged(key_views(keys@), shown@, desc),
        is_arrangement(indices(r@), key_views(keys@), shown@, desc),
{
    let ghost ks = key_views(keys@);
    let mut rows: Vec<usize> = Vec::new();
    let mut n: usize = 0;
    while n < keys.len()
        invariant
            n <= keys.len(),
            keys.len() == shown.len(),
            ks == key_views(keys@),
            in_order(indices(rows@), ks, desc),
            forall|i: int| #[trigger]
                indices(rows@).contains(i) <==> 0 <= i < n && shown@[i],
        decreases keys.len() - n,
    {
        let ghost before = indices(rows@);
        if shown[n] {
            assert(!before.contains(n as int));
            let p: usize = place(&rows, keys, desc, n);
            rows.insert(p, n);
            proof {
                lemma_insert(before, ks, desc, n as int, p as int);
            }
            assert(indices(rows@) =~= before.insert(p as int, n as int));
            assert forall|i: int| #[trigger] indices(rows@).contains(i) <==> 0 <= i < n + 1
                && shown@[i] by {
                lemma_insert_contains(before, p as int, n as int, i);
            }
        }
        n += 1;
    }
    assert(is_arrangement(indices(rows@), ks, shown@, desc));
    proof {
        let c = arranged(ks, shown@, desc);
        assert(is_arrangement(c, ks, shown@, desc));
        assert forall|i: int| #[trigger] indices(rows@).contains(i) <==> c.contains(i) by {}
        lemma_arrangement_unique(indices(rows@), c, ks, desc);
    }
    rows
}

proof fn lemma_insert_contains(s: Seq<int>, p: int, x: int, i: int)
    requires
        0 <= p <= s.len(),
    ensures
        s.insert(p, x).contains(i) <==> s.contains(i) || i == x,
{
    let t = s.insert(p, x);
    if t.contains(i) {
        let k = choose|k: int| 0 <= k < t.len() && t[k] == i;
        if k < p {
            assert(s[k] == i);
        } else if k > p {
            assert(s[k - 1] == i);
        }
    }
    if s.contains(i) {
        let k = choose|k: int| 0 <= k < s.len() && s[k] == i;
        if k < p {
            assert(t[k] == i);
        } else {
            assert(t[k + 1] == i);
        }
    }
    if i == x {
        assert(t[p] == i);
    }
}

proof fn lemma_insert(s: Seq<int>, ks: Seq<KeyView>, desc: bool, x: int, p: int)
    requires
        in_order(s, ks, desc),
        0 <= x < ks.len(),
        0 <= p <= s.len(),
        forall|i: int| 0 <= i < p ==> precedes(ks, desc, #[trigger] s[i], x),
        forall|i: int| p <= i < s.len() ==> precedes(ks, desc, x, #[trigger] s[i]),
    ensures
        in_order(s.insert(p, x), ks, desc),
{
    let t = s.insert(p, x);
    assert forall|i: int| 0 <= i < t.len() implies 0 <= #[trigger] t[i] < ks.len() by {
        if i < p {
            assert(t[i] == s[i]);
        } else if i > p {
            assert(t[i] == s[i - 1]);
        }
    }
    assert forall|i: int, j: int| 0 <= i < j < t.len() implies precedes(
        ks,
        desc,
        #[trigger] t[i],
        #[trigger] t[j],
    ) by {
        let a = if i < p {
            i
        } else {
            i - 1
        };
        let b = if j < p {
            j
        } else {
            j - 1
        };
        if i == p {
            assert(t[j] == s[b]);
        } else if j == p {
            assert(t[i] == s[a]);
        } else {
            assert(t[i] == s[a]);
            assert(t[j] == s[b]);
        }
    }
}

/// The rows of a listing are just the shown ones, each once and in order.
pub proof fn arranged_is_an_arrangement(keys: Seq<KeyView>, shown: Seq<bool>, desc: bool)
    requires
        keys.len() == shown.len(),
    ensures
        is_arrangement(arranged(keys, shown, desc), keys, shown, desc),
{
    lemma_arrangement_exists(keys, shown, desc, keys.len() as int);
}

proof fn lemma_arrangement_exists(keys: Seq<KeyView>, shown: Seq<bool>, desc: bool, n: int)
    requires
        keys.len() == shown.len(),
        0 <= n <= keys.len(),
    ensures
        exists|rows: Seq<int>| #[trigger]
            in_order(rows, keys, desc) && (forall|i: int| #[trigger]
                rows.contains(i) <==> 0 <= i < n && shown[i]),
        n == keys.len() ==> is_arrangement(arranged(keys, shown, desc), keys, shown, desc),
    decreases n,
{
    let rows = if n == 0 {
        Seq::<int>::empty()
    } else {
        lemma_arrangement_exists(keys, shown, desc, n - 1);
        let before = choose|rows: Seq<int>| #[trigger]
            in_order(rows, keys, desc) && (forall|i: int| #[trigger]
                rows.contains(i) <==> 0 <= i < n - 1 && shown[i]);
        if shown[n - 1] {
            assert(!before.contains(n - 1));
            let x = n - 1;
            lemma_place_exists(before, keys, desc, x, 0);
            let p = choose|p: int| is_place(before, keys, desc, x, p);
            lemma_insert(before, keys, desc, x, p);
            assert forall|i: int| #[trigger] before.insert(p, x).contains(i) <==> 0 <= i < n
                && shown[i] by {
                lemma_insert_contains(before, p, x, i);
            }
            before.insert(p, x)
        } else {
            before
        }
    };
    assert(in_order(rows, keys, desc));
    assert(forall|i: int| #[trigger] rows.contains(i) <==> 0 <= i < n && shown[i]);
    if n == keys.len() {
        assert(is_arrangement(rows, keys, shown, desc));
    }
}

/// Row `x` belongs at place `p` among `s`.
spec fn is_place(s: Seq<int>, ks: Seq<KeyView>, desc: bool, x: int, p: int) -> bool {
    &&& 0 <= p <= s.len()
    &&& forall|i: int| 0 <= i < p ==> precedes(ks, desc, #[trigger] s[i], x)
    &&& forall|i: int| p <= i < s.len() ==> precedes(ks, desc, x, #[trigger] s[i])
}

proof fn lemma_place_exists(s: Seq<int>, ks: Seq<KeyView>, desc: bool, x: int, p: int)
    requires
        in_order(s, ks, desc),
        !s.contains(x),
        0 <= p <= s.len(),
        forall|i: int| 0 <= i < p ==> precedes(ks, desc, #[trigger] s[i], x),
    ensures
        exists|q: int| is_place(s, ks, desc, x, q),
    decreases s.len() - p,
{
    if p == s.len() {
        assert(is_place(s, ks, desc, x, p));
    } else {
        assert(s.contains(s[p]));
        precedes_is_total(ks, desc, s[p], x);
        if precedes(ks, desc, s[p], x) {
            lemma_place_exists(s, ks, desc, x, p + 1);
        } else {
            assert forall|i: int| p <= i < s.len() implies precedes(
                ks,
                desc,
                x,
                #[trigger] s[i],
            ) by {
                if i > p {
                    precedes_is_transitive(ks, desc, x, s[p], s[i]);
                }
            }
            assert(is_place(s, ks, desc, x, p));
        }
    }
}

} // verus!
