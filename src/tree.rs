//! The Tiers view: a pre-order flattening of tiers, replicasets and
//! instances, where a tier shows its replicasets only when expanded, and a
//! replicaset its instances only when expanded.
use vstd::prelude::*;
use crate::models::{ReplicasetInfo, TierInfo};
use crate::view::TreeItem;

verus! {

/// Rows for the instances of replicaset `r` of tier `t`.
pub open spec fn instance_rows(t: usize, r: usize, n: nat) -> Seq<TreeItem> {
    Seq::new(n, |i: int| TreeItem::Instance(t, r, i as usize))
}

/// A replicaset's row, followed by its instances when it is expanded.
pub open spec fn replicaset_rows(
    t: usize,
    r: usize,
    rs: ReplicasetInfo,
    expanded_rs: Seq<(usize, usize)>,
) -> Seq<TreeItem> {
    seq![TreeItem::Replicaset(t, r)] + if expanded_rs.contains((t, r)) {
        instance_rows(t, r, rs.instances@.len())
    } else {
        Seq::empty()
    }
}

/// The rows of the first `m` replicasets of tier `t`.
pub open spec fn replicasets_rows(
    t: usize,
    rss: Seq<ReplicasetInfo>,
    expanded_rs: Seq<(usize, usize)>,
    m: nat,
) -> Seq<TreeItem>
    decreases m,
{
    if m == 0 {
        Seq::empty()
    } else {
        replicasets_rows(t, rss, expanded_rs, (m - 1) as nat) + replicaset_rows(
            t,
            (m - 1) as usize,
            rss[m - 1],
            expanded_rs,
        )
    }
}

/// The block that expanding tier `t` shows under its row.
pub open spec fn tier_block(t: usize, tier: TierInfo, expanded_rs: Seq<(usize, usize)>) -> Seq<
    TreeItem,
> {
    replicasets_rows(t, tier.replicasets@, expanded_rs, tier.replicasets@.len())
}

/// A tier's row, followed by its block when it is expanded.
pub open spec fn tier_rows(
    t: usize,
    tier: TierInfo,
    expanded_tiers: Seq<usize>,
    expanded_rs: Seq<(usize, usize)>,
) -> Seq<TreeItem> {
    seq![TreeItem::Tier(t)] + if expanded_tiers.contains(t) {
        tier_block(t, tier, expanded_rs)
    } else {
        Seq::empty()
    }
}

/// The rows of the first `n` tiers.
pub open spec fn tree_upto(
    tiers: Seq<TierInfo>,
    expanded_tiers: Seq<usize>,
    expanded_rs: Seq<(usize, usize)>,
    n: nat,
) -> Seq<TreeItem>
    decreases n,
{
    if n == 0 {
        Seq::empty()
    } else {
        tree_upto(tiers, expanded_tiers, expanded_rs, (n - 1) as nat) + tier_rows(
            (n - 1) as usize,
            tiers[n - 1],
            expanded_tiers,
            expanded_rs,
        )
    }
}

/// The whole Tiers view.
pub open spec fn tree_of(
    tiers: Seq<TierInfo>,
    expanded_tiers: Seq<usize>,
    expanded_rs: Seq<(usize, usize)>,
) -> Seq<TreeItem> {
    tree_upto(tiers, expanded_tiers, expanded_rs, tiers.len())
}

pub fn contains_index(v: &Vec<usize>, x: usize) -> (r: bool)
    ensures
        r == v@.contains(x),
{
    let mut i: usize = 0;
    while i < v.len()
        invariant
            i <= v.len(),
            forall|j: int| 0 <= j < i ==> v@[j] != x,
        decreases v.len() - i,
    {
        if v[i] == x {
            return true;
        }
        i = i + 1;
    }
    false
}

pub fn contains_pair(v: &Vec<(usize, usize)>, a: usize, b: usize) -> (r: bool)
    ensures
        r == v@.contains((a, b)),
{
    let mut i: usize = 0;
    while i < v.len()
        invariant
            i <= v.len(),
            forall|j: int| 0 <= j < i ==> v@[j] != (a, b),
        decreases v.len() - i,
    {
        if v[i].0 == a && v[i].1 == b {
            return true;
        }
        i = i + 1;
    }
    false
}

/// Flattens the tiers into the rows of the Tiers view, in pre-order.
pub fn build_tree(
    tiers: &Vec<TierInfo>,
    expanded_tiers: &Vec<usize>,
    expanded_rs: &Vec<(usize, usize)>,
) -> (items: Vec<TreeItem>)
    ensures
        items@ == tree_of(tiers@, expanded_tiers@, expanded_rs@),
{
    let mut items: Vec<TreeItem> = Vec::new();
    let mut t: usize = 0;
    while t < tiers.len()
        invariant
            t <= tiers.len(),
            items@ == tree_upto(tiers@, expanded_tiers@, expanded_rs@, t as nat),
        decreases tiers.len() - t,
    {
        let ghost before = items@;
        let tier = &tiers[t];
        items.push(TreeItem::Tier(t));
        if contains_index(expanded_tiers, t) {
            let mut r: usize = 0;
            while r < tier.replicasets.len()
                invariant
                    t < tiers.len(),
                    tier == &tiers@[t as int],
                    r <= tier.replicasets.len(),
                    items@ == before + seq![TreeItem::Tier(t)] + replicasets_rows(
                        t,
                        tier.replicasets@,
                        expanded_rs@,
                        r as nat,
                    ),
                decreases tier.replicasets.len() - r,
            {
                let ghost before_rs = items@;
                let rs = &tier.replicasets[r];
                items.push(TreeItem::Replicaset(t, r));
                if contains_pair(expanded_rs, t, r) {
                    let mut i: usize = 0;
                    while i < rs.instances.len()
                        invariant
                            i <= rs.instances.len(),
                            items@ == before_rs + seq![TreeItem::Replicaset(t, r)] + instance_rows(
                                t,
                                r,
                                i as nat,
                            ),
                        decreases rs.instances.len() - i,
                    {
                        items.push(TreeItem::Instance(t, r, i));
                        i = i + 1;
                        assert(items@ =~= before_rs + seq![TreeItem::Replicaset(t, r)]
                            + instance_rows(t, r, i as nat));
                    }
                } else {
                    assert(items@ =~= before_rs + replicaset_rows(
                        t,
                        r,
                        tier.replicasets@[r as int],
                        expanded_rs@,
                    ));
                }
                assert(items@ =~= before_rs + replicaset_rows(
                    t,
                    r,
                    tier.replicasets@[r as int],
                    expanded_rs@,
                ));
                r = r + 1;
                assert(items@ =~= before + seq![TreeItem::Tier(t)] + replicasets_rows(
                    t,
                    tier.replicasets@,
                    expanded_rs@,
                    r as nat,
                ));
            }
        }
        assert(items@ =~= before + tier_rows(t, tiers@[t as int], expanded_tiers@, expanded_rs@));
        t = t + 1;
    }
    items
}

/// The rows of the first `n` tiers do not depend on whether tier `t` is
/// expanded when `t >= n`.
proof fn lemma_tree_upto_ignores(
    tiers: Seq<TierInfo>,
    e: Seq<usize>,
    e2: Seq<usize>,
    rs: Seq<(usize, usize)>,
    n: nat,
)
    requires
        n <= tiers.len(),
        forall|i: usize| (i as int) < n ==> (e.contains(i) <==> e2.contains(i)),
    ensures
        tree_upto(tiers, e, rs, n) == tree_upto(tiers, e2, rs, n),
    decreases n,
{
    if n > 0 {
        lemma_tree_upto_ignores(tiers, e, e2, rs, (n - 1) as nat);
    }
}

/// Expanding a collapsed tier inserts its replicasets' rows immediately
/// after the tier's own row, in their order, and changes nothing else.
pub proof fn lemma_expand_tier_inserts_block(
    tiers: Seq<TierInfo>,
    expanded_tiers: Seq<usize>,
    expanded_rs: Seq<(usize, usize)>,
    t: usize,
)
    requires
        (t as int) < tiers.len() <= usize::MAX,
        !expanded_tiers.contains(t),
    ensures
        ({
            let before = tree_of(tiers, expanded_tiers, expanded_rs);
            let after = tree_of(tiers, expanded_tiers.push(t), expanded_rs);
            let k: int = tree_upto(tiers, expanded_tiers, expanded_rs, t as nat).len() as int;
            &&& before[k] == TreeItem::Tier(t)
            &&& after == before.take(k + 1) + tier_block(t, tiers[t as int], expanded_rs)
                + before.skip(k + 1)
        }),
{
    lemma_expand_upto(tiers, expanded_tiers, expanded_rs, t, tiers.len());
}

proof fn lemma_expand_upto(
    tiers: Seq<TierInfo>,
    e: Seq<usize>,
    rs: Seq<(usize, usize)>,
    t: usize,
    n: nat,
)
    requires
        (t as int) < n <= tiers.len() <= usize::MAX,
        !e.contains(t),
    ensures
        ({
            let before = tree_upto(tiers, e, rs, n);
            let after = tree_upto(tiers, e.push(t), rs, n);
            let k: int = tree_upto(tiers, e, rs, t as nat).len() as int;
            &&& k < before.len()
            &&& before[k] == TreeItem::Tier(t)
            &&& after == before.take(k + 1) + tier_block(t, tiers[t as int], rs) + before.skip(
                k + 1,
            )
        }),
    decreases n,
{
    let e2 = e.push(t);
    assert forall|i: usize| (i as int) < t implies (e.contains(i) <==> e2.contains(i)) by {
        if e2.contains(i) {
            let j = choose|j: int| 0 <= j < e2.len() && e2[j] == i;
            if j < e.len() {
                assert(e[j] == i);
            }
        }
        if e.contains(i) {
            let j = choose|j: int| 0 <= j < e.len() && e[j] == i;
            assert(e2[j] == i);
        }
    }
    let k: int = tree_upto(tiers, e, rs, t as nat).len() as int;
    if n == t + 1 {
        lemma_tree_upto_ignores(tiers, e, e2, rs, t as nat);
        assert(e2[e.len() as int] == t);
        assert(e2.contains(t));
        let before = tree_upto(tiers, e, rs, n);
        let after = tree_upto(tiers, e2, rs, n);
        assert(before =~= tree_upto(tiers, e, rs, t as nat) + seq![TreeItem::Tier(t)]);
        assert(after =~= before.take(k + 1) + tier_block(t, tiers[t as int], rs) + before.skip(
            k + 1,
        ));
    } else {
        lemma_expand_upto(tiers, e, rs, t, (n - 1) as nat);
        let m = (n - 1) as usize;
        assert(e.contains(m) <==> e2.contains(m)) by {
            if e2.contains(m) {
                let j = choose|j: int| 0 <= j < e2.len() && e2[j] == m;
                if j < e.len() {
                    assert(e[j] == m);
                }
            }
            if e.contains(m) {
                let j = choose|j: int| 0 <= j < e.len() && e[j] == m;
                assert(e2[j] == m);
            }
        }
        assert(tier_rows(m, tiers[m as int], e, rs) == tier_rows(m, tiers[m as int], e2, rs));
        let b1 = tree_upto(tiers, e, rs, (n - 1) as nat);
        let before = tree_upto(tiers, e, rs, n);
        let after = tree_upto(tiers, e2, rs, n);
        assert(before == b1 + tier_rows(m, tiers[m as int], e, rs));
        assert(after =~= before.take(k + 1) + tier_block(t, tiers[t as int], rs) + before.skip(
            k + 1,
        ));
    }
}

proof fn lemma_replicasets_rows_grow(
    t: usize,
    rss: Seq<ReplicasetInfo>,
    r1: Seq<(usize, usize)>,
    r2: Seq<(usize, usize)>,
    m: nat,
)
    requires
        m <= rss.len(),
        forall|p: (usize, usize)| r1.contains(p) ==> r2.contains(p),
    ensures
        replicasets_rows(t, rss, r1, m).len() <= replicasets_rows(t, rss, r2, m).len(),
    decreases m,
{
    if m > 0 {
        lemma_replicasets_rows_grow(t, rss, r1, r2, (m - 1) as nat);
        let r = (m - 1) as usize;
        if r1.contains((t, r)) {
            assert(r2.contains((t, r)));
        }
    }
}

proof fn lemma_tree_upto_grows(
    tiers: Seq<TierInfo>,
    e1: Seq<usize>,
    e2: Seq<usize>,
    r1: Seq<(usize, usize)>,
    r2: Seq<(usize, usize)>,
    n: nat,
)
    requires
        n <= tiers.len(),
        forall|x: usize| e1.contains(x) ==> e2.contains(x),
        forall|p: (usize, usize)| r1.contains(p) ==> r2.contains(p),
    ensures
        tree_upto(tiers, e1, r1, n).len() <= tree_upto(tiers, e2, r2, n).len(),
    decreases n,
{
    if n > 0 {
        lemma_tree_upto_grows(tiers, e1, e2, r1, r2, (n - 1) as nat);
        let t = (n - 1) as usize;
        let tier = tiers[n - 1];
        lemma_replicasets_rows_grow(t, tier.replicasets@, r1, r2, tier.replicasets@.len());
        if e1.contains(t) {
            assert(e2.contains(t));
        }
    }
}

/// Expanding more tiers or replicasets never shortens the Tiers view.
pub proof fn lemma_tree_grows(
    tiers: Seq<TierInfo>,
    e1: Seq<usize>,
    e2: Seq<usize>,
    r1: Seq<(usize, usize)>,
    r2: Seq<(usize, usize)>,
)
    requires
        forall|x: usize| e1.contains(x) ==> e2.contains(x),
        forall|p: (usize, usize)| r1.contains(p) ==> r2.contains(p),
    ensures
        tree_of(tiers, e1, r1).len() <= tree_of(tiers, e2, r2).len(),
{
    lemma_tree_upto_grows(tiers, e1, e2, r1, r2, tiers.len());
}

proof fn lemma_replicasets_rows_no_tier(
    t: usize,
    rss: Seq<ReplicasetInfo>,
    rs: Seq<(usize, usize)>,
    m: nat,
)
    requires
        m <= rss.len(),
    ensures
        forall|i: int|
            0 <= i < replicasets_rows(t, rss, rs, m).len() ==> !(#[trigger] replicasets_rows(
                t,
                rss,
                rs,
                m,
            )[i] is Tier),
    decreases m,
{
    if m > 0 {
        lemma_replicasets_rows_no_tier(t, rss, rs, (m - 1) as nat);
        let prev = replicasets_rows(t, rss, rs, (m - 1) as nat);
        let last = replicaset_rows(t, (m - 1) as usize, rss[m - 1], rs);
        assert forall|i: int| 0 <= i < prev.len() + last.len() implies !((prev + last)[i] is Tier) by {
            if i >= prev.len() {
                assert((prev + last)[i] == last[i - prev.len()]);
            } else {
                assert((prev + last)[i] == prev[i]);
            }
        }
    }
}

proof fn lemma_tier_row_position(
    tiers: Seq<TierInfo>,
    e: Seq<usize>,
    rs: Seq<(usize, usize)>,
    n: nat,
    t: usize,
    i: int,
)
    requires
        n <= tiers.len() <= usize::MAX,
        0 <= i < tree_upto(tiers, e, rs, n).len(),
        tree_upto(tiers, e, rs, n)[i] == TreeItem::Tier(t),
    ensures
        (t as int) < n,
        i == tree_upto(tiers, e, rs, t as nat).len(),
    decreases n,
{
    let m = (n - 1) as nat;
    let prev = tree_upto(tiers, e, rs, m);
    let rows = tier_rows((n - 1) as usize, tiers[n - 1], e, rs);
    assert(tree_upto(tiers, e, rs, n) == prev + rows);
    if i < prev.len() {
        assert((prev + rows)[i] == prev[i]);
        lemma_tier_row_position(tiers, e, rs, m, t, i);
    } else {
        assert((prev + rows)[i] == rows[i - prev.len()]);
        if i > prev.len() {
            let tier = tiers[n - 1];
            lemma_replicasets_rows_no_tier(
                (n - 1) as usize,
                tier.replicasets@,
                rs,
                tier.replicasets@.len(),
            );
            assert(rows[i - prev.len()] == tier_block((n - 1) as usize, tier, rs)[i - prev.len()
                - 1]);
        }
    }
}

proof fn lemma_collapsed_rows(t: usize, rss: Seq<ReplicasetInfo>, rs: Seq<(usize, usize)>, m: nat)
    requires
        m <= rss.len() <= usize::MAX,
        forall|r: usize| !rs.contains((t, r)),
    ensures
        replicasets_rows(t, rss, rs, m) == Seq::new(m, |r: int| TreeItem::Replicaset(t, r as usize)),
    decreases m,
{
    if m > 0 {
        lemma_collapsed_rows(t, rss, rs, (m - 1) as nat);
        assert(!rs.contains((t, (m - 1) as usize)));
        assert(replicasets_rows(t, rss, rs, m) =~= Seq::new(
            m,
            |r: int| TreeItem::Replicaset(t, r as usize),
        ));
    } else {
        assert(replicasets_rows(t, rss, rs, m) =~= Seq::new(
            m,
            |r: int| TreeItem::Replicaset(t, r as usize),
        ));
    }
}

/// The row `Tier(t)` stands at exactly one position of the Tiers view: right
/// after the rows of the tiers before it.
pub proof fn lemma_tier_row_is_unique(
    tiers: Seq<TierInfo>,
    expanded_tiers: Seq<usize>,
    expanded_rs: Seq<(usize, usize)>,
    t: usize,
    i: int,
)
    requires
        tiers.len() <= usize::MAX,
        0 <= i < tree_of(tiers, expanded_tiers, expanded_rs).len(),
        tree_of(tiers, expanded_tiers, expanded_rs)[i] == TreeItem::Tier(t),
    ensures
        (t as int) < tiers.len(),
        i == tree_upto(tiers, expanded_tiers, expanded_rs, t as nat).len(),
{
    lemma_tier_row_position(tiers, expanded_tiers, expanded_rs, tiers.len(), t, i);
}

/// When none of tier `t`'s replicasets is expanded, the block that
/// expanding `t` shows is exactly its replicasets, in their order.
pub proof fn lemma_tier_block_of_collapsed(t: usize, tier: TierInfo, expanded_rs: Seq<(usize, usize)>)
    requires
        tier.replicasets@.len() <= usize::MAX,
        forall|r: usize| !expanded_rs.contains((t, r)),
    ensures
        tier_block(t, tier, expanded_rs) == Seq::new(
            tier.replicasets@.len(),
            |r: int| TreeItem::Replicaset(t, r as usize),
        ),
{
    lemma_collapsed_rows(t, tier.replicasets@, expanded_rs, tier.replicasets@.len());
}

} // verus!
