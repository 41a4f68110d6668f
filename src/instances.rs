//! The Instances view: every instance with its tier and replicaset names,
//! filtered by a case-insensitive text and stably sorted.
use vstd::prelude::*;
use vstd::string::*;
use crate::models::{InstanceInfo, ReplicasetInfo, TierInfo};
use crate::sorting::{
    goes_after, key_cmp, keys_at, key_view, key_views, lemma_descending_is_reversed_ascending,
    lemma_key_cmp_zero, lemma_stable_order_is_stable_sort, sort_positions, stable_order,
};
use crate::text::{contains_text, has_infix, lower_of, lowercase, text_cmp};
use crate::view::{SortField, SortOrder};

verus! {

/// An instance with the names of its tier and replicaset.
pub type RowView = (Seq<char>, Seq<char>, InstanceInfo);

pub open spec fn row_view(e: (&str, &str, &InstanceInfo)) -> RowView {
    (e.0@, e.1@, *e.2)
}

pub open spec fn rows_view(v: Seq<(&str, &str, &InstanceInfo)>) -> Seq<RowView> {
    v.map_values(|e: (&str, &str, &InstanceInfo)| row_view(e))
}

/// The rows of one replicaset's instances.
pub open spec fn replicaset_instance_rows(tier_name: Seq<char>, rs: ReplicasetInfo) -> Seq<RowView> {
    Seq::new(rs.instances@.len(), |i: int| (tier_name, rs.name@, rs.instances@[i]))
}

/// The rows of the first `m` replicasets of a tier.
pub open spec fn tier_instance_rows(tier: TierInfo, m: nat) -> Seq<RowView>
    decreases m,
{
    if m == 0 {
        Seq::empty()
    } else {
        tier_instance_rows(tier, (m - 1) as nat) + replicaset_instance_rows(
            tier.name@,
            tier.replicasets@[m - 1],
        )
    }
}

/// The rows of the first `n` tiers.
pub open spec fn instance_rows_upto(tiers: Seq<TierInfo>, n: nat) -> Seq<RowView>
    decreases n,
{
    if n == 0 {
        Seq::empty()
    } else {
        instance_rows_upto(tiers, (n - 1) as nat) + tier_instance_rows(
            tiers[n - 1],
            tiers[n - 1].replicasets@.len(),
        )
    }
}

/// Every instance, in tier, replicaset and instance order.
pub open spec fn all_instance_rows(tiers: Seq<TierInfo>) -> Seq<RowView> {
    instance_rows_upto(tiers, tiers.len())
}

/// A row matches the lower-cased filter `f` when `f` is empty or occurs in
/// the lower-cased instance name, tier name, replicaset name, binary address
/// or a failure-domain value.
pub open spec fn row_matches(f: Seq<char>, row: RowView) -> bool {
    ||| f.len() == 0
    ||| has_infix(lower_of(row.2.name@), f)
    ||| has_infix(lower_of(row.0), f)
    ||| has_infix(lower_of(row.1), f)
    ||| has_infix(lower_of(row.2.binary_address@), f)
    ||| exists|j: int|
        0 <= j < row.2.failure_domain@.len() && has_infix(
            lower_of(#[trigger] row.2.failure_domain@[j].1@),
            f,
        )
}

pub open spec fn matcher(f: Seq<char>) -> spec_fn(RowView) -> bool {
    |row: RowView| row_matches(f, row)
}

/// The rows that the lower-cased filter `f` keeps, in data order.
pub open spec fn visible_rows(tiers: Seq<TierInfo>, f: Seq<char>) -> Seq<RowView> {
    all_instance_rows(tiers).filter(matcher(f))
}

/// "key:value".
pub open spec fn pair_text(p: (String, String)) -> Seq<char> {
    p.0@ + seq![':'] + p.1@
}

/// The pairs' texts joined with ", ".
pub open spec fn joined_pairs(ps: Seq<(String, String)>) -> Seq<char>
    decreases ps.len(),
{
    if ps.len() == 0 {
        Seq::empty()
    } else if ps.len() == 1 {
        pair_text(ps[0])
    } else {
        joined_pairs(ps.drop_last()) + seq![',', ' '] + pair_text(ps.last())
    }
}

pub open spec fn label_keys(fd: Seq<(String, String)>) -> Seq<(Seq<char>, Seq<char>)> {
    fd.map_values(|p: (String, String)| (p.0@, Seq::<char>::empty()))
}

/// The failure domain's pairs in ascending order of their keys.
pub open spec fn sorted_labels(fd: Seq<(String, String)>) -> Seq<(String, String)> {
    stable_order(label_keys(fd), false).map_values(|j: usize| fd[j as int])
}

/// A failure domain maps labels to values: no key occurs twice.
pub open spec fn labels_distinct(fd: Seq<(String, String)>) -> bool {
    forall|i: int, j: int|
        0 <= i < fd.len() && 0 <= j < fd.len() && i != j ==> #[trigger] fd[i].0@ != #[trigger] fd[j].0@
}

/// With distinct keys, the sorted pairs have strictly ascending keys, so
/// the canonical text does not depend on the order the pairs came in.
pub proof fn lemma_sorted_labels_strictly_ascending(fd: Seq<(String, String)>)
    requires
        labels_distinct(fd),
        fd.len() <= usize::MAX,
    ensures
        sorted_labels(fd).len() == fd.len(),
        forall|i: int, j: int|
            0 <= i < j < fd.len() ==> text_cmp(
                #[trigger] sorted_labels(fd)[i].0@,
                #[trigger] sorted_labels(fd)[j].0@,
            ) < 0,
{
    let keys = label_keys(fd);
    lemma_stable_order_is_stable_sort(keys, false);
    let s = stable_order(keys, false);
    let sl = sorted_labels(fd);
    assert forall|i: int, j: int| 0 <= i < j < fd.len() implies text_cmp(
        #[trigger] sl[i].0@,
        #[trigger] sl[j].0@,
    ) < 0 by {
        let a = s[i] as int;
        let b = s[j] as int;
        assert(s[i] != s[j]);
        assert(sl[i] == fd[a] && sl[j] == fd[b]);
        assert(keys[a] == (fd[a].0@, Seq::<char>::empty()));
        assert(keys[b] == (fd[b].0@, Seq::<char>::empty()));
        assert(!goes_after(keys[a], keys[b], false));
        if key_cmp(keys[a], keys[b]) == 0 {
            lemma_key_cmp_zero(keys[a], keys[b]);
        }
    }
}

/// The canonical text of a failure domain: "key:value" pairs in ascending
/// key order, joined with ", ".
pub open spec fn failure_domain_text(fd: Seq<(String, String)>) -> Seq<char> {
    joined_pairs(sorted_labels(fd))
}

/// The sort key of a row.
pub open spec fn row_key(row: RowView, field: SortField) -> (Seq<char>, Seq<char>) {
    match field {
        SortField::Name => (row.2.name@, Seq::empty()),
        SortField::FailureDomain => (failure_domain_text(row.2.failure_domain@), row.2.name@),
    }
}

pub open spec fn row_keys(rows: Seq<RowView>, field: SortField) -> Seq<(Seq<char>, Seq<char>)> {
    rows.map_values(|row: RowView| row_key(row, field))
}

/// `rows` stably sorted by the field, ascending or descending.
pub open spec fn sorted_rows(rows: Seq<RowView>, field: SortField, order: SortOrder) -> Seq<
    RowView,
> {
    stable_order(row_keys(rows, field), order == SortOrder::Desc).map_values(
        |j: usize| rows[j as int],
    )
}

/// The Instances view for a filter text: the visible rows, sorted.
pub open spec fn arranged_rows(
    tiers: Seq<TierInfo>,
    filter_text: Seq<char>,
    field: SortField,
    order: SortOrder,
) -> Seq<RowView> {
    sorted_rows(visible_rows(tiers, lower_of(filter_text)), field, order)
}

/// Filtering does not depend on the case of the filter text: two filter
/// texts with the same lower-case form give the same Instances view.
pub proof fn lemma_filter_ignores_case(
    tiers: Seq<TierInfo>,
    a: Seq<char>,
    b: Seq<char>,
    field: SortField,
    order: SortOrder,
)
    requires
        lower_of(a) == lower_of(b),
    ensures
        arranged_rows(tiers, a, field, order) == arranged_rows(tiers, b, field, order),
        visible_rows(tiers, lower_of(a)) == visible_rows(tiers, lower_of(b)),
{
}

/// The canonical text of a failure domain (see `failure_domain_text`).
pub fn format_failure_domain(domain: &Vec<(String, String)>) -> (r: String)
    ensures
        r@ == failure_domain_text(domain@),
        labels_distinct(domain@) ==> forall|i: int, j: int|
            0 <= i < j < domain@.len() ==> text_cmp(
                #[trigger] sorted_labels(domain@)[i].0@,
                #[trigger] sorted_labels(domain@)[j].0@,
            ) < 0,
{
    proof {
        if labels_distinct(domain@) {
            lemma_sorted_labels_strictly_ascending(domain@);
        }
    }
    let mut keys: Vec<(String, String)> = Vec::new();
    let mut i: usize = 0;
    while i < domain.len()
        invariant
            i <= domain.len(),
            keys@.len() == i,
            key_views(keys@) =~= label_keys(domain@).take(i as int),
        decreases domain.len() - i,
    {
        let key = domain[i].0.clone();
        let empty = String::new();
        assert(key@ == domain@[i as int].0@);
        let ghost old_keys = keys@;
        keys.push((key, empty));
        i = i + 1;
        assert forall|m: int| 0 <= m < i implies #[trigger] key_views(keys@)[m] == label_keys(
            domain@,
        )[m] by {
            if m < i - 1 {
                assert(keys@[m] == old_keys[m]);
                assert(key_views(old_keys)[m] == label_keys(domain@).take(i - 1)[m]);
            }
        }
        assert(key_views(keys@) =~= label_keys(domain@).take(i as int));
    }
    assert(label_keys(domain@).take(domain.len() as int) =~= label_keys(domain@));
    let order = sort_positions(&keys, false);
    let ghost sorted = sorted_labels(domain@);
    proof {
        lemma_stable_order_in_range(label_keys(domain@), false);
    }
    let mut text = String::new();
    let mut k: usize = 0;
    while k < order.len()
        invariant
            k <= order.len(),
            order@ == stable_order(label_keys(domain@), false),
            sorted == sorted_labels(domain@),
            sorted.len() == order@.len(),
            forall|m: int| 0 <= m < order@.len() ==> order@[m] < domain@.len(),
            text@ == joined_pairs(sorted.take(k as int)),
        decreases order.len() - k,
    {
        let pair = &domain[order[k]];
        proof {
            reveal_strlit(", ");
            reveal_strlit(":");
            assert(sorted.take(k + 1).drop_last() =~= sorted.take(k as int));
            assert(sorted[k as int] == *pair);
        }
        if k > 0 {
            text.append(", ");
        }
        text.append(pair.0.as_str());
        text.append(":");
        text.append(pair.1.as_str());
        k = k + 1;
        assert(text@ =~= joined_pairs(sorted.take(k as int)));
    }
    assert(sorted.take(order.len() as int) =~= sorted);
    text
}

/// Whether an instance row matches the lower-cased filter `filter_lower`.
pub fn matches_filter(
    filter_lower: &str,
    tier_name: &str,
    rs_name: &str,
    inst: &InstanceInfo,
) -> (r: bool)
    ensures
        r == row_matches(filter_lower@, (tier_name@, rs_name@, *inst)),
{
    if filter_lower.is_empty() {
        return true;
    }
    if contains_text(lowercase(inst.name.as_str()).as_str(), filter_lower) {
        return true;
    }
    if contains_text(lowercase(tier_name).as_str(), filter_lower) {
        return true;
    }
    if contains_text(lowercase(rs_name).as_str(), filter_lower) {
        return true;
    }
    if contains_text(lowercase(inst.binary_address.as_str()).as_str(), filter_lower) {
        return true;
    }
    let mut j: usize = 0;
    while j < inst.failure_domain.len()
        invariant
            j <= inst.failure_domain.len(),
            forall|m: int|
                0 <= m < j ==> !has_infix(
                    lower_of(#[trigger] inst.failure_domain@[m].1@),
                    filter_lower@,
                ),
        decreases inst.failure_domain.len() - j,
    {
        if contains_text(lowercase(inst.failure_domain[j].1.as_str()).as_str(), filter_lower) {
            return true;
        }
        j = j + 1;
    }
    false
}

/// The instances that the lower-cased filter keeps, with their tier and
/// replicaset names, in data order.
pub fn visible_instances<'a>(tiers: &'a Vec<TierInfo>, filter_lower: &str) -> (r: Vec<
    (&'a str, &'a str, &'a InstanceInfo),
>)
    ensures
        rows_view(r@) == visible_rows(tiers@, filter_lower@),
{
    let ghost p = matcher(filter_lower@);
    let mut out: Vec<(&'a str, &'a str, &'a InstanceInfo)> = Vec::new();
    let mut t: usize = 0;
    while t < tiers.len()
        invariant
            t <= tiers.len(),
            p == matcher(filter_lower@),
            rows_view(out@) == instance_rows_upto(tiers@, t as nat).filter(p),
        decreases tiers.len() - t,
    {
        let tier = &tiers[t];
        let ghost base_t = instance_rows_upto(tiers@, t as nat);
        let mut r: usize = 0;
        while r < tier.replicasets.len()
            invariant
                t < tiers.len(),
                tier == &tiers@[t as int],
                r <= tier.replicasets.len(),
                p == matcher(filter_lower@),
                base_t == instance_rows_upto(tiers@, t as nat),
                rows_view(out@) == (base_t + tier_instance_rows(*tier, r as nat)).filter(p),
            decreases tier.replicasets.len() - r,
        {
            let rs = &tier.replicasets[r];
            let ghost base_r = base_t + tier_instance_rows(*tier, r as nat);
            let ghost rows_r = replicaset_instance_rows(tier.name@, *rs);
            let mut i: usize = 0;
            while i < rs.instances.len()
                invariant
                    i <= rs.instances.len(),
                    r < tier.replicasets.len(),
                    rs == &tier.replicasets@[r as int],
                    p == matcher(filter_lower@),
                    rows_r == replicaset_instance_rows(tier.name@, *rs),
                    rows_view(out@) == (base_r + rows_r.take(i as int)).filter(p),
                decreases rs.instances.len() - i,
            {
                let inst = &rs.instances[i];
                let row = (tier.name.as_str(), rs.name.as_str(), inst);
                let keep = matches_filter(filter_lower, row.0, row.1, row.2);
                let ghost old_out = out@;
                proof {
                    assert(rows_r[i as int] == row_view(row));
                    assert(base_r + rows_r.take(i + 1) =~= (base_r + rows_r.take(i as int)).push(
                        row_view(row),
                    ));
                    assert(p(row_view(row)) == keep);
                    (base_r + rows_r.take(i as int)).lemma_filter_push(row_view(row), p);
                }
                if keep {
                    out.push(row);
                    assert(rows_view(out@) =~= rows_view(old_out).push(row_view(row)));
                }
                i = i + 1;
            }
            assert(rows_r.take(i as int) =~= rows_r);
            assert(base_t + tier_instance_rows(*tier, (r + 1) as nat) =~= base_r + rows_r);
            r = r + 1;
        }
        assert(instance_rows_upto(tiers@, (t + 1) as nat) =~= base_t + tier_instance_rows(
            *tier,
            tier.replicasets@.len(),
        ));
        t = t + 1;
    }
    out
}

/// Stably sorts instance rows by the field, ascending or descending.
pub fn sort_instances<'a>(
    rows: &Vec<(&'a str, &'a str, &'a InstanceInfo)>,
    field: SortField,
    order: SortOrder,
) -> (r: Vec<(&'a str, &'a str, &'a InstanceInfo)>)
    ensures
        rows_view(r@) == sorted_rows(rows_view(rows@), field, order),
{
    let ghost rv = rows_view(rows@);
    let mut keys: Vec<(String, String)> = Vec::new();
    let mut i: usize = 0;
    while i < rows.len()
        invariant
            i <= rows.len(),
            rv == rows_view(rows@),
            keys@.len() == i,
            forall|m: int| 0 <= m < i ==> #[trigger] key_views(keys@)[m] == row_keys(rv, field)[m],
        decreases rows.len() - i,
    {
        let inst = rows[i].2;
        let key = match field {
            SortField::Name => (inst.name.clone(), String::new()),
            SortField::FailureDomain => (
                format_failure_domain(&inst.failure_domain),
                inst.name.clone(),
            ),
        };
        assert(key_view(key) == row_keys(rv, field)[i as int]);
        let ghost old_keys = keys@;
        keys.push(key);
        assert forall|m: int| 0 <= m < i + 1 implies #[trigger] key_views(keys@)[m] == row_keys(
            rv,
            field,
        )[m] by {
            if m < i {
                assert(keys@[m] == old_keys[m]);
                assert(key_views(old_keys)[m] == row_keys(rv, field)[m]);
            }
        }
        i = i + 1;
    }
    assert(key_views(keys@) =~= row_keys(rv, field));
    let order_pos = sort_positions(&keys, order == SortOrder::Desc);
    proof {
        lemma_stable_order_in_range(row_keys(rv, field), order == SortOrder::Desc);
    }
    let ghost target = sorted_rows(rv, field, order);
    let mut out: Vec<(&'a str, &'a str, &'a InstanceInfo)> = Vec::new();
    let mut k: usize = 0;
    while k < order_pos.len()
        invariant
            k <= order_pos.len(),
            rv == rows_view(rows@),
            order_pos@ == stable_order(row_keys(rv, field), order == SortOrder::Desc),
            order_pos@.len() == rows@.len(),
            forall|m: int| 0 <= m < order_pos@.len() ==> order_pos@[m] < rows@.len(),
            target == sorted_rows(rv, field, order),
            rows_view(out@) =~= target.take(k as int),
        decreases order_pos.len() - k,
    {
        let ghost old_out = out@;
        out.push(rows[order_pos[k]]);
        k = k + 1;
        assert(rows_view(out@) =~= rows_view(old_out).push(row_view(rows@[order_pos@[k - 1] as int])));
        assert(target.take(k as int) =~= target.take(k - 1).push(target[k - 1]));
    }
    assert(target.take(k as int) =~= target);
    out
}

/// The Instances view: the instances whose rows match `filter_text` without
/// regard to case, stably sorted by the field in the given order.
pub fn sorted_instances<'a>(
    tiers: &'a Vec<TierInfo>,
    filter_text: &str,
    field: SortField,
    order: SortOrder,
) -> (r: Vec<(&'a str, &'a str, &'a InstanceInfo)>)
    ensures
        rows_view(r@) == arranged_rows(tiers@, filter_text@, field, order),
        filter_text@.len() == 0 ==> rows_view(r@) == sorted_rows(
            all_instance_rows(tiers@),
            field,
            order,
        ),
{
    let filter_lower = lowercase(filter_text);
    proof {
        if filter_text@.len() == 0 {
            lemma_empty_filter_keeps_all(all_instance_rows(tiers@), filter_lower@);
        }
    }
    let rows = visible_instances(tiers, filter_lower.as_str());
    sort_instances(&rows, field, order)
}

/// The number of instances that `filter_text` keeps.
pub fn count_visible(tiers: &Vec<TierInfo>, filter_text: &str) -> (n: usize)
    ensures
        n == visible_rows(tiers@, lower_of(filter_text@)).len(),
        filter_text@.len() == 0 ==> n == all_instance_rows(tiers@).len(),
{
    let filter_lower = lowercase(filter_text);
    proof {
        if filter_text@.len() == 0 {
            lemma_empty_filter_keeps_all(all_instance_rows(tiers@), filter_lower@);
        }
    }
    let rows = visible_instances(tiers, filter_lower.as_str());
    rows.len()
}

/// The instance names of rows, in order.
pub open spec fn row_names(rows: Seq<RowView>) -> Seq<Seq<char>> {
    rows.map_values(|r: RowView| r.2.name@)
}

proof fn lemma_sorted_row_keys(rows: Seq<RowView>, field: SortField, order: SortOrder)
    ensures
        row_keys(sorted_rows(rows, field, order), field) == keys_at(
            stable_order(row_keys(rows, field), order == SortOrder::Desc),
            row_keys(rows, field),
        ),
{
    let desc = order == SortOrder::Desc;
    lemma_stable_order_in_range(row_keys(rows, field), desc);
    assert(row_keys(sorted_rows(rows, field, order), field) =~= keys_at(
        stable_order(row_keys(rows, field), desc),
        row_keys(rows, field),
    ));
}

/// Sorting descending lists the rows' sort keys in exactly the reverse order
/// of sorting ascending, for any rows, equal keys included; by name, the
/// names of the descending sort are those of the ascending sort reversed.
pub proof fn lemma_descending_sort_reverses_ascending(rows: Seq<RowView>, field: SortField)
    ensures
        row_keys(sorted_rows(rows, field, SortOrder::Asc).reverse(), field) == row_keys(
            sorted_rows(rows, field, SortOrder::Desc),
            field,
        ),
        row_names(sorted_rows(rows, SortField::Name, SortOrder::Asc).reverse()) == row_names(
            sorted_rows(rows, SortField::Name, SortOrder::Desc),
        ),
{
    lemma_descending_is_reversed_ascending(row_keys(rows, field));
    lemma_sorted_row_keys(rows, field, SortOrder::Asc);
    lemma_sorted_row_keys(rows, field, SortOrder::Desc);
    let asc = sorted_rows(rows, field, SortOrder::Asc);
    assert(row_keys(asc.reverse(), field) =~= row_keys(asc, field).reverse());
    lemma_descending_is_reversed_ascending(row_keys(rows, SortField::Name));
    lemma_sorted_row_keys(rows, SortField::Name, SortOrder::Asc);
    lemma_sorted_row_keys(rows, SortField::Name, SortOrder::Desc);
    let na = sorted_rows(rows, SortField::Name, SortOrder::Asc);
    let nd = sorted_rows(rows, SortField::Name, SortOrder::Desc);
    assert(row_keys(na.reverse(), SortField::Name) =~= row_keys(na, SortField::Name).reverse());
    let ka = row_keys(na.reverse(), SortField::Name);
    let kd = row_keys(nd, SortField::Name);
    assert(ka.len() == kd.len());
    assert forall|i: int| 0 <= i < ka.len() implies #[trigger] row_names(na.reverse())[i] == row_names(
        nd,
    )[i] by {
        assert(ka[i] == kd[i]);
    }
    assert(row_names(na.reverse()) =~= row_names(nd));
}

/// With distinct instance names, sorting by name descending lists exactly
/// the rows of the ascending sort in reverse. (With equal names the two
/// differ only in the order of the rows that share a name, which both keep
/// as in the data.)
pub proof fn lemma_name_sort_descending_is_reversed(rows: Seq<RowView>)
    requires
        forall|i: int, j: int|
            0 <= i < rows.len() && 0 <= j < rows.len() && i != j ==> #[trigger] rows[i].2.name@
                != #[trigger] rows[j].2.name@,
    ensures
        sorted_rows(rows, SortField::Name, SortOrder::Asc).reverse() == sorted_rows(
            rows,
            SortField::Name,
            SortOrder::Desc,
        ),
{
    let keys = row_keys(rows, SortField::Name);
    let pa = stable_order(keys, false);
    let pd = stable_order(keys, true);
    lemma_stable_order_in_range(keys, false);
    lemma_stable_order_in_range(keys, true);
    lemma_descending_is_reversed_ascending(keys);
    let asc = sorted_rows(rows, SortField::Name, SortOrder::Asc);
    let desc = sorted_rows(rows, SortField::Name, SortOrder::Desc);
    let n = rows.len() as int;
    assert forall|i: int| 0 <= i < n implies #[trigger] asc.reverse()[i] == desc[i] by {
        let a = pa[n - 1 - i] as int;
        let d = pd[i] as int;
        assert(keys_at(pa, keys).reverse()[i] == keys_at(pd, keys)[i]);
        assert(keys[a] == keys[d]);
        assert(rows[a].2.name@ == keys[a].0);
        assert(rows[d].2.name@ == keys[d].0);
        assert(a == d);
    }
    assert(asc.reverse() =~= desc);
}

/// An empty filter keeps every row.
pub proof fn lemma_empty_filter_keeps_all(rows: Seq<RowView>, f: Seq<char>)
    requires
        f.len() == 0,
    ensures
        rows.filter(matcher(f)) == rows,
    decreases rows.len(),
{
    reveal(Seq::filter);
    if rows.len() > 0 {
        lemma_empty_filter_keeps_all(rows.drop_last(), f);
        assert(rows.drop_last().push(rows.last()) =~= rows);
    }
}

/// Each tier's replicasets with the tier's name, for the first `n` tiers.
pub open spec fn replicaset_entries_upto(tiers: Seq<TierInfo>, n: nat) -> Seq<
    (Seq<char>, ReplicasetInfo),
>
    decreases n,
{
    if n == 0 {
        Seq::empty()
    } else {
        replicaset_entries_upto(tiers, (n - 1) as nat) + Seq::new(
            tiers[n - 1].replicasets@.len(),
            |r: int| (tiers[n - 1].name@, tiers[n - 1].replicasets@[r]),
        )
    }
}

/// The Replicasets view: every tier's replicasets, tier order and the
/// server's order within a tier kept.
pub open spec fn replicaset_entries(tiers: Seq<TierInfo>) -> Seq<(Seq<char>, ReplicasetInfo)> {
    replicaset_entries_upto(tiers, tiers.len())
}

pub open spec fn entry_view(e: (&str, &ReplicasetInfo)) -> (Seq<char>, ReplicasetInfo) {
    (e.0@, *e.1)
}

pub open spec fn entries_view(v: Seq<(&str, &ReplicasetInfo)>) -> Seq<(Seq<char>, ReplicasetInfo)> {
    v.map_values(|e: (&str, &ReplicasetInfo)| entry_view(e))
}

/// The rows of the Replicasets view, each with its tier's name.
pub fn replicaset_list<'a>(tiers: &'a Vec<TierInfo>) -> (r: Vec<(&'a str, &'a ReplicasetInfo)>)
    ensures
        entries_view(r@) == replicaset_entries(
            tiers@,
        ),
{
    let mut out: Vec<(&'a str, &'a ReplicasetInfo)> = Vec::new();
    let mut t: usize = 0;
    while t < tiers.len()
        invariant
            t <= tiers.len(),
            entries_view(out@)
                == replicaset_entries_upto(tiers@, t as nat),
        decreases tiers.len() - t,
    {
        let tier = &tiers[t];
        let ghost base = replicaset_entries_upto(tiers@, t as nat);
        let ghost block = Seq::new(
            tier.replicasets@.len(),
            |r: int| (tier.name@, tier.replicasets@[r]),
        );
        let mut r: usize = 0;
        while r < tier.replicasets.len()
            invariant
                t < tiers.len(),
                tier == &tiers@[t as int],
                r <= tier.replicasets.len(),
                block == Seq::new(
                    tier.replicasets@.len(),
                    |i: int| (tier.name@, tier.replicasets@[i]),
                ),
                entries_view(out@) == base
                    + block.take(r as int),
            decreases tier.replicasets.len() - r,
        {
            let ghost before = out@;
            let entry = (tier.name.as_str(), &tier.replicasets[r]);
            out.push(entry);
            assert(entries_view(out@) =~= entries_view(before).push(entry_view(entry)));
            assert(block.take(r + 1) =~= block.take(r as int).push(block[r as int]));
            r = r + 1;
            assert(entries_view(out@) =~= base
                + block.take(r as int));
        }
        assert(block.take(r as int) =~= block);
        t = t + 1;
        assert(replicaset_entries_upto(tiers@, t as nat) =~= base + block);
    }
    out
}

/// The stable order of `n` keys holds each of `0..n` once, and nothing else.
pub proof fn lemma_stable_order_in_range(keys: Seq<(Seq<char>, Seq<char>)>, desc: bool)
    ensures
        stable_order(keys, desc).len() == keys.len(),
        forall|m: int|
            0 <= m < keys.len() ==> (#[trigger] stable_order(keys, desc)[m] as int) < keys.len(),
{
    lemma_order_upto_in_range(keys, desc, keys.len());
}

proof fn lemma_insert_in_range(
    s: Seq<usize>,
    x: usize,
    keys: Seq<(Seq<char>, Seq<char>)>,
    desc: bool,
    n: nat,
)
    requires
        (x as int) < n,
        forall|m: int| 0 <= m < s.len() ==> (s[m] as int) < n,
    ensures
        crate::sorting::insert_stable(s, x, keys, desc).len() == s.len() + 1,
        forall|m: int|
            0 <= m < s.len() + 1 ==> (crate::sorting::insert_stable(s, x, keys, desc)[m] as int)
                < n,
    decreases s.len(),
{
    if s.len() > 0 {
        lemma_insert_in_range(s.drop_last(), x, keys, desc, n);
    }
}

proof fn lemma_order_upto_in_range(keys: Seq<(Seq<char>, Seq<char>)>, desc: bool, n: nat)
    ensures
        crate::sorting::stable_order_upto(keys, desc, n).len() == n,
        forall|m: int|
            0 <= m < n ==> (crate::sorting::stable_order_upto(keys, desc, n)[m] as int) < n,
    decreases n,
{
    if n > 0 {
        lemma_order_upto_in_range(keys, desc, (n - 1) as nat);
        lemma_insert_in_range(
            crate::sorting::stable_order_upto(keys, desc, (n - 1) as nat),
            (n - 1) as usize,
            keys,
            desc,
            n,
        );
    }
}

} // verus!
