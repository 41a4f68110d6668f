//! Stable sorting of positions by a two-part text key.
use vstd::prelude::*;
use crate::text::{compare_text, text_cmp};

verus! {

/// A sort key: a primary text and a secondary text that breaks ties.
pub open spec fn key_view(k: (String, String)) -> (Seq<char>, Seq<char>) {
    (k.0@, k.1@)
}

pub open spec fn key_views(keys: Seq<(String, String)>) -> Seq<(Seq<char>, Seq<char>)> {
    keys.map_values(|k: (String, String)| key_view(k))
}

/// Compares keys by primary text, then by secondary text.
pub open spec fn key_cmp(a: (Seq<char>, Seq<char>), b: (Seq<char>, Seq<char>)) -> int {
    if text_cmp(a.0, b.0) != 0 {
        text_cmp(a.0, b.0)
    } else {
        text_cmp(a.1, b.1)
    }
}

/// Key `a` belongs strictly after key `b`: ascending, or descending when
/// `desc` (the comparison reversed, so equal keys stay where they are).
pub open spec fn goes_after(a: (Seq<char>, Seq<char>), b: (Seq<char>, Seq<char>), desc: bool) -> bool {
    if desc {
        key_cmp(a, b) < 0
    } else {
        key_cmp(a, b) > 0
    }
}

/// Inserts position `x` into the sorted `s`: after every position whose key
/// does not go after `x`'s, so that equal keys keep their order.
pub open spec fn insert_stable(
    s: Seq<usize>,
    x: usize,
    keys: Seq<(Seq<char>, Seq<char>)>,
    desc: bool,
) -> Seq<usize>
    decreases s.len(),
{
    if s.len() == 0 {
        seq![x]
    } else if goes_after(keys[s.last() as int], keys[x as int], desc) {
        insert_stable(s.drop_last(), x, keys, desc).push(s.last())
    } else {
        s.push(x)
    }
}

/// The stable sorted order of the first `n` positions.
pub open spec fn stable_order_upto(keys: Seq<(Seq<char>, Seq<char>)>, desc: bool, n: nat) -> Seq<
    usize,
>
    decreases n,
{
    if n == 0 {
        Seq::empty()
    } else {
        insert_stable(
            stable_order_upto(keys, desc, (n - 1) as nat),
            (n - 1) as usize,
            keys,
            desc,
        )
    }
}

/// The positions of `keys` in stable sorted order.
pub open spec fn stable_order(keys: Seq<(Seq<char>, Seq<char>)>, desc: bool) -> Seq<usize> {
    stable_order_upto(keys, desc, keys.len())
}

proof fn lemma_insert_at(
    s: Seq<usize>,
    x: usize,
    keys: Seq<(Seq<char>, Seq<char>)>,
    desc: bool,
    j: int,
)
    requires
        0 <= j <= s.len(),
        forall|m: int| j <= m < s.len() ==> goes_after(keys[s[m] as int], keys[x as int], desc),
        j == 0 || !goes_after(keys[s[j - 1] as int], keys[x as int], desc),
    ensures
        insert_stable(s, x, keys, desc) == s.insert(j, x),
    decreases s.len(),
{
    if s.len() == 0 {
        assert(s.insert(j, x) =~= seq![x]);
    } else if goes_after(keys[s.last() as int], keys[x as int], desc) {
        let t = s.drop_last();
        assert forall|m: int| j <= m < t.len() implies goes_after(
            keys[t[m] as int],
            keys[x as int],
            desc,
        ) by {
            assert(t[m] == s[m]);
        }
        if j > 0 && j - 1 < t.len() {
            assert(t[j - 1] == s[j - 1]);
        }
        lemma_insert_at(t, x, keys, desc, j);
        assert(s.insert(j, x) =~= t.insert(j, x).push(s.last()));
    } else {
        assert(s.insert(j, x) =~= s.push(x));
    }
}

/// Compares two keys as `key_cmp` does.
pub fn compare_keys(a: &(String, String), b: &(String, String)) -> (r: i8)
    ensures
        r as int == key_cmp(key_view(*a), key_view(*b)),
{
    let c = compare_text(a.0.as_str(), b.0.as_str());
    if c != 0 {
        c
    } else {
        compare_text(a.1.as_str(), b.1.as_str())
    }
}

fn key_goes_after(a: &(String, String), b: &(String, String), desc: bool) -> (r: bool)
    ensures
        r == goes_after(key_view(*a), key_view(*b), desc),
{
    let c = compare_keys(a, b);
    if desc {
        c < 0
    } else {
        c > 0
    }
}

/// The positions `0..keys.len()` in stable sorted order of their keys,
/// ascending, or descending when `desc`.
pub fn sort_positions(keys: &Vec<(String, String)>, desc: bool) -> (p: Vec<usize>)
    ensures
        p@ == stable_order(key_views(keys@), desc),
{
    let ghost kv = key_views(keys@);
    let mut p: Vec<usize> = Vec::new();
    let mut i: usize = 0;
    while i < keys.len()
        invariant
            i <= keys.len(),
            kv == key_views(keys@),
            p@ == stable_order_upto(kv, desc, i as nat),
            forall|m: int| 0 <= m < p@.len() ==> p@[m] < i,
        decreases keys.len() - i,
    {
        let mut j: usize = p.len();
        while j > 0 && key_goes_after(&keys[p[j - 1]], &keys[i], desc)
            invariant
                j <= p.len(),
                i < keys.len(),
                kv == key_views(keys@),
                forall|m: int| 0 <= m < p@.len() ==> p@[m] < i,
                forall|m: int| j <= m < p@.len() ==> goes_after(kv[p@[m] as int], kv[i as int], desc),
            decreases j,
        {
            j = j - 1;
        }
        proof {
            lemma_insert_at(p@, i, kv, desc, j as int);
        }
        p.insert(j, i);
        i = i + 1;
    }
    p
}

proof fn lemma_text_cmp_antisym(a: Seq<char>, b: Seq<char>)
    ensures
        text_cmp(a, b) == -text_cmp(b, a),
        -1 <= text_cmp(a, b) <= 1,
    decreases a.len(),
{
    if a.len() > 0 && b.len() > 0 && a[0] as int == b[0] as int {
        lemma_text_cmp_antisym(a.drop_first(), b.drop_first());
    }
}

proof fn lemma_text_cmp_zero(a: Seq<char>, b: Seq<char>)
    requires
        text_cmp(a, b) == 0,
    ensures
        a == b,
    decreases a.len(),
{
    if a.len() > 0 && b.len() > 0 {
        lemma_text_cmp_zero(a.drop_first(), b.drop_first());
        assert((a[0] as int) == (b[0] as int));
        assert(a[0] == b[0]);
        assert(a =~= seq![a[0]] + a.drop_first());
        assert(b =~= seq![b[0]] + b.drop_first());
    } else {
        assert(a =~= b);
    }
}

proof fn lemma_text_cmp_trans(a: Seq<char>, b: Seq<char>, c: Seq<char>)
    requires
        text_cmp(a, b) <= 0,
        text_cmp(b, c) <= 0,
    ensures
        text_cmp(a, c) <= 0,
    decreases a.len(),
{
    if a.len() > 0 && b.len() > 0 && c.len() > 0 && a[0] as int == b[0] as int && b[0] as int
        == c[0] as int {
        lemma_text_cmp_trans(a.drop_first(), b.drop_first(), c.drop_first());
    }
}

proof fn lemma_key_cmp_antisym(a: (Seq<char>, Seq<char>), b: (Seq<char>, Seq<char>))
    ensures
        key_cmp(a, b) == -key_cmp(b, a),
{
    lemma_text_cmp_antisym(a.0, b.0);
    lemma_text_cmp_antisym(a.1, b.1);
}

pub(crate) proof fn lemma_key_cmp_zero(a: (Seq<char>, Seq<char>), b: (Seq<char>, Seq<char>))
    requires
        key_cmp(a, b) == 0,
    ensures
        a == b,
{
    lemma_text_cmp_zero(a.0, b.0);
    lemma_text_cmp_zero(a.1, b.1);
}

proof fn lemma_key_cmp_trans(
    a: (Seq<char>, Seq<char>),
    b: (Seq<char>, Seq<char>),
    c: (Seq<char>, Seq<char>),
)
    requires
        key_cmp(a, b) <= 0,
        key_cmp(b, c) <= 0,
    ensures
        key_cmp(a, c) <= 0,
{
    lemma_text_cmp_antisym(a.0, b.0);
    lemma_text_cmp_antisym(b.0, c.0);
    lemma_text_cmp_antisym(a.0, c.0);
    if text_cmp(a.0, b.0) == 0 {
        lemma_text_cmp_zero(a.0, b.0);
    }
    if text_cmp(b.0, c.0) == 0 {
        lemma_text_cmp_zero(b.0, c.0);
    }
    if a.0 == b.0 && b.0 == c.0 {
        lemma_text_cmp_trans(a.1, b.1, c.1);
    } else {
        lemma_text_cmp_trans(a.0, b.0, c.0);
        if text_cmp(a.0, c.0) == 0 {
            lemma_text_cmp_zero(a.0, c.0);
            lemma_text_cmp_trans(b.0, c.0, a.0);
        }
    }
}

/// The keys of the given positions, in their order.
pub open spec fn keys_at(s: Seq<usize>, keys: Seq<(Seq<char>, Seq<char>)>) -> Seq<
    (Seq<char>, Seq<char>),
> {
    s.map_values(|j: usize| keys[j as int])
}

pub open spec fn ascending(ks: Seq<(Seq<char>, Seq<char>)>) -> bool {
    forall|i: int, j: int| 0 <= i < j < ks.len() ==> key_cmp(#[trigger] ks[i], #[trigger] ks[j]) <= 0
}

/// Where `insert_stable` puts `x`.
pub open spec fn scan_pos(
    s: Seq<usize>,
    x: usize,
    keys: Seq<(Seq<char>, Seq<char>)>,
    desc: bool,
) -> int
    decreases s.len(),
{
    if s.len() == 0 {
        0
    } else if goes_after(keys[s.last() as int], keys[x as int], desc) {
        scan_pos(s.drop_last(), x, keys, desc)
    } else {
        s.len() as int
    }
}

proof fn lemma_scan_pos(s: Seq<usize>, x: usize, keys: Seq<(Seq<char>, Seq<char>)>, desc: bool)
    ensures
        0 <= scan_pos(s, x, keys, desc) <= s.len(),
        forall|m: int|
            scan_pos(s, x, keys, desc) <= m < s.len() ==> goes_after(
                keys[#[trigger] s[m] as int],
                keys[x as int],
                desc,
            ),
        scan_pos(s, x, keys, desc) == 0 || !goes_after(
            keys[s[scan_pos(s, x, keys, desc) - 1] as int],
            keys[x as int],
            desc,
        ),
        insert_stable(s, x, keys, desc) == s.insert(scan_pos(s, x, keys, desc), x),
    decreases s.len(),
{
    if s.len() > 0 && goes_after(keys[s.last() as int], keys[x as int], desc) {
        let t = s.drop_last();
        lemma_scan_pos(t, x, keys, desc);
        let p = scan_pos(t, x, keys, desc);
        assert forall|m: int| p <= m < s.len() implies goes_after(
            keys[#[trigger] s[m] as int],
            keys[x as int],
            desc,
        ) by {
            if m < t.len() {
                assert(s[m] == t[m]);
            }
        }
        if p > 0 {
            assert(s[p - 1] == t[p - 1]);
        }
    }
    lemma_insert_at(s, x, keys, desc, scan_pos(s, x, keys, desc));
}

proof fn lemma_insert_equal_run(
    d: Seq<(Seq<char>, Seq<char>)>,
    k: (Seq<char>, Seq<char>),
    q: int,
    p: int,
)
    requires
        0 <= q <= p <= d.len(),
        forall|m: int| q <= m < p ==> d[m] == k,
    ensures
        d.insert(q, k) == d.insert(p, k),
{
    assert forall|i: int| 0 <= i < d.len() + 1 implies #[trigger] d.insert(q, k)[i] == d.insert(
        p,
        k,
    )[i] by {
        if q < i && i <= p {
            assert(d[i - 1] == k);
        }
        if q <= i && i < p {
            assert(d[i] == k);
        }
    }
    assert(d.insert(q, k) =~= d.insert(p, k));
}

proof fn lemma_insert_keeps_ascending(
    a: Seq<(Seq<char>, Seq<char>)>,
    k: (Seq<char>, Seq<char>),
    pa: int,
)
    requires
        0 <= pa <= a.len(),
        ascending(a),
        pa == 0 || key_cmp(a[pa - 1], k) <= 0,
        forall|i: int| pa <= i < a.len() ==> key_cmp(#[trigger] a[i], k) > 0,
    ensures
        ascending(a.insert(pa, k)),
        forall|i: int| 0 <= i < pa ==> key_cmp(#[trigger] a[i], k) <= 0,
{
    assert forall|i: int| 0 <= i < pa implies key_cmp(#[trigger] a[i], k) <= 0 by {
        if i < pa - 1 {
            assert(key_cmp(a[i], a[pa - 1]) <= 0);
            lemma_key_cmp_trans(a[i], a[pa - 1], k);
        }
    }
    let a2 = a.insert(pa, k);
    assert forall|i: int, j: int| 0 <= i < j < a2.len() implies key_cmp(
        #[trigger] a2[i],
        #[trigger] a2[j],
    ) <= 0 by {
        if j < pa {
            assert(a2[i] == a[i] && a2[j] == a[j]);
        } else if j == pa {
            assert(a2[i] == a[i] && a2[j] == k);
        } else if i < pa {
            assert(a2[i] == a[i] && a2[j] == a[j - 1]);
            assert(key_cmp(a[j - 1], k) > 0);
            lemma_key_cmp_antisym(a[j - 1], k);
            lemma_key_cmp_trans(a[i], k, a[j - 1]);
        } else if i == pa {
            assert(a2[i] == k && a2[j] == a[j - 1]);
            lemma_key_cmp_antisym(a[j - 1], k);
        } else {
            assert(a2[i] == a[i - 1] && a2[j] == a[j - 1]);
        }
    }
}

proof fn lemma_mirror_step(
    a: Seq<(Seq<char>, Seq<char>)>,
    d: Seq<(Seq<char>, Seq<char>)>,
    k: (Seq<char>, Seq<char>),
    pa: int,
    pd: int,
)
    requires
        0 <= pa <= a.len(),
        0 <= pd <= d.len(),
        ascending(a),
        d == a.reverse(),
        forall|i: int| 0 <= i < pa ==> key_cmp(#[trigger] a[i], k) <= 0,
        forall|i: int| pa <= i < a.len() ==> key_cmp(#[trigger] a[i], k) > 0,
        pd == 0 || key_cmp(d[pd - 1], k) >= 0,
        forall|i: int| pd <= i < d.len() ==> key_cmp(#[trigger] d[i], k) < 0,
    ensures
        a.insert(pa, k).reverse() == d.insert(pd, k),
{
    let len = a.len() as int;
    let q = len - pa;
    assert(a.insert(pa, k).reverse() =~= d.insert(q, k));
    assert forall|i: int| q <= i < len implies key_cmp(#[trigger] d[i], k) <= 0 by {
        assert(d[i] == a[len - 1 - i]);
    }
    assert forall|i: int| 0 <= i < q implies key_cmp(#[trigger] d[i], k) > 0 by {
        assert(d[i] == a[len - 1 - i]);
    }
    if pd < q {
        assert(key_cmp(d[pd], k) < 0);
        assert(key_cmp(d[pd], k) > 0);
    }
    assert forall|i: int| q <= i < pd implies #[trigger] d[i] == k by {
        lemma_key_cmp_antisym(d[pd - 1], k);
        if i < pd - 1 {
            assert(d[i] == a[len - 1 - i]);
            assert(d[pd - 1] == a[len - pd]);
            assert(key_cmp(a[len - pd], a[len - 1 - i]) <= 0);
            lemma_key_cmp_trans(k, d[pd - 1], d[i]);
        }
        lemma_key_cmp_antisym(k, d[i]);
        assert(key_cmp(d[i], k) <= 0);
        lemma_key_cmp_zero(d[i], k);
    }
    lemma_insert_equal_run(d, k, q, pd);
}

proof fn lemma_insert_in_bounds(s: Seq<usize>, p: int, x: usize, n: nat)
    requires
        0 <= p <= s.len(),
        (x as int) < n,
        forall|m: int| 0 <= m < s.len() ==> (#[trigger] s[m] as int) < n,
    ensures
        forall|m: int| 0 <= m < s.len() + 1 ==> (#[trigger] s.insert(p, x)[m] as int) < n,
{
    assert forall|m: int| 0 <= m < s.len() + 1 implies (#[trigger] s.insert(p, x)[m] as int)
        < n by {
        if m < p {
            assert(s.insert(p, x)[m] == s[m]);
        } else if m > p {
            assert(s.insert(p, x)[m] == s[m - 1]);
        }
    }
}

proof fn lemma_orders_mirror(keys: Seq<(Seq<char>, Seq<char>)>, n: nat)
    requires
        n <= keys.len(),
    ensures
        stable_order_upto(keys, false, n).len() == n,
        stable_order_upto(keys, true, n).len() == n,
        forall|m: int| 0 <= m < n ==> (#[trigger] stable_order_upto(keys, false, n)[m] as int) < n,
        forall|m: int| 0 <= m < n ==> (#[trigger] stable_order_upto(keys, true, n)[m] as int) < n,
        ascending(keys_at(stable_order_upto(keys, false, n), keys)),
        keys_at(stable_order_upto(keys, false, n), keys).reverse() == keys_at(
            stable_order_upto(keys, true, n),
            keys,
        ),
    decreases n,
{
    if n == 0 {
        assert(keys_at(stable_order_upto(keys, false, n), keys).reverse() =~= keys_at(
            stable_order_upto(keys, true, n),
            keys,
        ));
        return;
    }
    let m1 = (n - 1) as nat;
    lemma_orders_mirror(keys, m1);
    let x = (n - 1) as usize;
    let k = keys[x as int];
    let sa = stable_order_upto(keys, false, m1);
    let sd = stable_order_upto(keys, true, m1);
    let a = keys_at(sa, keys);
    let d = keys_at(sd, keys);
    lemma_scan_pos(sa, x, keys, false);
    lemma_scan_pos(sd, x, keys, true);
    let pa = scan_pos(sa, x, keys, false);
    let pd = scan_pos(sd, x, keys, true);
    assert(stable_order_upto(keys, false, n) == sa.insert(pa, x));
    assert(stable_order_upto(keys, true, n) == sd.insert(pd, x));
    assert(keys_at(sa.insert(pa, x), keys) =~= a.insert(pa, k));
    assert(keys_at(sd.insert(pd, x), keys) =~= d.insert(pd, k));
    assert forall|i: int| pa <= i < a.len() implies key_cmp(#[trigger] a[i], k) > 0 by {
        assert(a[i] == keys[sa[i] as int]);
    }
    assert forall|i: int| pd <= i < d.len() implies key_cmp(#[trigger] d[i], k) < 0 by {
        assert(d[i] == keys[sd[i] as int]);
    }
    if pa > 0 {
        assert(a[pa - 1] == keys[sa[pa - 1] as int]);
    }
    if pd > 0 {
        assert(d[pd - 1] == keys[sd[pd - 1] as int]);
    }
    lemma_insert_keeps_ascending(a, k, pa);
    lemma_mirror_step(a, d, k, pa, pd);
    lemma_insert_in_bounds(sa, pa, x, n);
    lemma_insert_in_bounds(sd, pd, x, n);
}

/// Sorting descending yields exactly the keys of the ascending sort in
/// reverse: the descending comparator is the ascending one reversed.
pub proof fn lemma_descending_is_reversed_ascending(keys: Seq<(Seq<char>, Seq<char>)>)
    ensures
        keys_at(stable_order(keys, false), keys).reverse() == keys_at(
            stable_order(keys, true),
            keys,
        ),
        ascending(keys_at(stable_order(keys, false), keys)),
{
    lemma_orders_mirror(keys, keys.len());
}

proof fn lemma_order_upto_distinct_stable(keys: Seq<(Seq<char>, Seq<char>)>, desc: bool, n: nat)
    requires
        n <= keys.len() <= usize::MAX,
    ensures
        stable_order_upto(keys, desc, n).len() == n,
        forall|m: int| 0 <= m < n ==> (#[trigger] stable_order_upto(keys, desc, n)[m] as int) < n,
        forall|i: int, j: int|
            0 <= i < n && 0 <= j < n && i != j ==> #[trigger] stable_order_upto(keys, desc, n)[i]
                != #[trigger] stable_order_upto(keys, desc, n)[j],
        forall|i: int, j: int|
            0 <= i < j < n && keys[#[trigger] stable_order_upto(keys, desc, n)[i] as int]
                == keys[#[trigger] stable_order_upto(keys, desc, n)[j] as int]
                ==> stable_order_upto(keys, desc, n)[i] < stable_order_upto(keys, desc, n)[j],
    decreases n,
{
    if n == 0 {
        return;
    }
    let m1 = (n - 1) as nat;
    lemma_order_upto_distinct_stable(keys, desc, m1);
    let x = (n - 1) as usize;
    let s0 = stable_order_upto(keys, desc, m1);
    lemma_scan_pos(s0, x, keys, desc);
    let p = scan_pos(s0, x, keys, desc);
    let s1 = s0.insert(p, x);
    assert(stable_order_upto(keys, desc, n) == s1);
    assert(s1[p] == x);
    assert forall|m: int| 0 <= m < n implies (#[trigger] s1[m] as int) < n by {
        if m < p {
            assert(s1[m] == s0[m]);
        } else if m > p {
            assert(s1[m] == s0[m - 1]);
        }
    }
    assert forall|i: int, j: int| 0 <= i < n && 0 <= j < n && i != j implies #[trigger] s1[i]
        != #[trigger] s1[j] by {
        let a = if i < p { i } else { i - 1 };
        let b = if j < p { j } else { j - 1 };
        if i != p && j != p {
            assert(s1[i] == s0[a] && s1[j] == s0[b]);
            assert(a != b);
        } else if i == p {
            assert(s1[j] == s0[b]);
            assert((s0[b] as int) < m1);
        } else {
            assert(s1[i] == s0[a]);
            assert((s0[a] as int) < m1);
        }
    }
    assert forall|i: int, j: int|
        0 <= i < j < n && keys[#[trigger] s1[i] as int] == keys[#[trigger] s1[j] as int] implies s1[i]
        < s1[j] by {
        if j == p {
            assert(s1[i] == s0[i]);
            assert((s0[i] as int) < m1);
        } else if i == p {
            assert(s1[j] == s0[j - 1]);
            assert(goes_after(keys[s0[j - 1] as int], keys[x as int], desc));
            lemma_key_cmp_antisym(keys[x as int], keys[x as int]);
        } else {
            let a = if i < p { i } else { i - 1 };
            let b = if j < p { j } else { j - 1 };
            assert(s1[i] == s0[a] && s1[j] == s0[b]);
            assert(a < b);
        }
    }
}

/// `stable_order` is a stable sort: it lists each position of `0..n` exactly
/// once, in order of their keys (ascending, or descending when `desc`), and
/// positions with equal keys in their original order.
pub proof fn lemma_stable_order_is_stable_sort(keys: Seq<(Seq<char>, Seq<char>)>, desc: bool)
    requires
        keys.len() <= usize::MAX,
    ensures
        ({
            let s = stable_order(keys, desc);
            &&& s.len() == keys.len()
            &&& forall|m: int| 0 <= m < s.len() ==> (#[trigger] s[m] as int) < keys.len()
            &&& forall|i: int, j: int|
                0 <= i < s.len() && 0 <= j < s.len() && i != j ==> #[trigger] s[i] != #[trigger] s[j]
            &&& forall|i: int, j: int|
                0 <= i < j < s.len() ==> !goes_after(
                    keys[#[trigger] s[i] as int],
                    keys[#[trigger] s[j] as int],
                    desc,
                )
            &&& forall|i: int, j: int|
                0 <= i < j < s.len() && keys[#[trigger] s[i] as int] == keys[#[trigger] s[j] as int]
                    ==> s[i] < s[j]
        }),
{
    let n = keys.len();
    lemma_order_upto_distinct_stable(keys, desc, n);
    lemma_orders_mirror(keys, n);
    let s = stable_order(keys, desc);
    let a = keys_at(stable_order(keys, false), keys);
    let d = keys_at(stable_order(keys, true), keys);
    assert forall|i: int, j: int| 0 <= i < j < s.len() implies !goes_after(
        keys[#[trigger] s[i] as int],
        keys[#[trigger] s[j] as int],
        desc,
    ) by {
        if desc {
            assert(d[i] == keys[s[i] as int] && d[j] == keys[s[j] as int]);
            assert(d[i] == a[n - 1 - i] && d[j] == a[n - 1 - j]);
            assert(key_cmp(a[n - 1 - j], a[n - 1 - i]) <= 0);
            lemma_key_cmp_antisym(d[i], d[j]);
        } else {
            assert(a[i] == keys[s[i] as int] && a[j] == keys[s[j] as int]);
        }
    }
}

} // verus!
