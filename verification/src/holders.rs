use vstd::prelude::*;

use crate::order::{
    chars_equal, chars_less, lemma_ascending_unique, lemma_lex_irreflexive, lemma_lex_transitive,
    lemma_lex_trichotomy, lex_lt, strictly_ascending,
};
use crate::recompute::HolderAmount;
use crate::text::chars_of;

verus! {

/// The summed amount of one category over a list of holders.
pub open spec fn category_total(hs: Seq<HolderAmount>, c: Seq<char>) -> nat
    decreases hs.len(),
{
    if hs.len() == 0 {
        0
    } else {
        category_total(hs.drop_last(), c) + (if hs.last().category@ == c {
            hs.last().amount as nat
        } else {
            0nat
        })
    }
}

/// The categories that occur in a list of holders.
pub open spec fn category_set(hs: Seq<HolderAmount>) -> Set<Seq<char>>
    decreases hs.len(),
{
    if hs.len() == 0 {
        Set::empty()
    } else {
        category_set(hs.drop_last()).insert(hs.last().category@)
    }
}

/// `ks` holds exactly the elements of `s`.
pub open spec fn lists_exactly(ks: Seq<Seq<char>>, s: Set<Seq<char>>) -> bool {
    forall|c: Seq<char>| #[trigger] ks.contains(c) <==> s.contains(c)
}

/// The categories of a list of holders, each once, in ascending order.
pub open spec fn sorted_categories(hs: Seq<HolderAmount>) -> Seq<Seq<char>> {
    choose|ks: Seq<Seq<char>>| strictly_ascending(ks) && lists_exactly(ks, category_set(hs))
}

/// Every category total of the list fits in a `u64`.
pub open spec fn totals_fit(hs: Seq<HolderAmount>) -> bool {
    forall|c: Seq<char>| #[trigger] category_total(hs, c) <= u64::MAX
}

/// The summed amount of one category.
pub struct CategoryTotal {
    pub category: Vec<char>,
    pub total: u64,
}

/// The categories of a list of normalised totals.
pub open spec fn keys_of(r: Seq<CategoryTotal>) -> Seq<Seq<char>> {
    r.map_values(|e: CategoryTotal| e.category@)
}

/// The first index at or after `j` whose key does not sort before `k`.
spec fn first_not_below(ks: Seq<Seq<char>>, k: Seq<char>, j: int) -> int
    decreases ks.len() - j,
{
    if j < 0 {
        0
    } else if j >= ks.len() || !lex_lt(ks[j], k) {
        j
    } else {
        first_not_below(ks, k, j + 1)
    }
}

proof fn lemma_first_not_below(ks: Seq<Seq<char>>, k: Seq<char>, j: int)
    requires
        0 <= j <= ks.len(),
        forall|i: int| 0 <= i < j ==> lex_lt(#[trigger] ks[i], k),
    ensures
        j <= first_not_below(ks, k, j) <= ks.len(),
        forall|i: int| 0 <= i < first_not_below(ks, k, j) ==> lex_lt(#[trigger] ks[i], k),
        first_not_below(ks, k, j) < ks.len() ==> !lex_lt(ks[first_not_below(ks, k, j)], k),
    decreases ks.len() - j,
{
    if j < ks.len() && lex_lt(ks[j], k) {
        lemma_first_not_below(ks, k, j + 1);
    }
}

/// Inserting `k` at the first position whose key does not sort before it
/// keeps a strictly ascending list strictly ascending, and adds exactly `k`.
proof fn lemma_insert_at_position(ks: Seq<Seq<char>>, k: Seq<char>, p: int)
    requires
        strictly_ascending(ks),
        0 <= p <= ks.len(),
        forall|i: int| 0 <= i < p ==> lex_lt(#[trigger] ks[i], k),
        p < ks.len() ==> !lex_lt(ks[p], k),
        !(p < ks.len() && ks[p] == k),
    ensures
        strictly_ascending(ks.insert(p, k)),
        forall|c: Seq<char>| #[trigger] ks.insert(p, k).contains(c) <==> (ks.contains(c) || c == k),
        !ks.contains(k),
{
    let n = ks.insert(p, k);
    assert forall|i: int| p <= i < ks.len() implies lex_lt(k, #[trigger] ks[i]) by {
        lemma_lex_trichotomy(ks[p], k);
        if i > p {
            lemma_lex_transitive(k, ks[p], ks[i]);
        }
    }
    assert forall|i: int, j: int| 0 <= i < j < n.len() implies lex_lt(
        #[trigger] n[i],
        #[trigger] n[j],
    ) by {
        if j < p {
            assert(n[i] == ks[i] && n[j] == ks[j]);
        } else if j == p {
            assert(n[i] == ks[i]);
        } else if i < p {
            assert(n[i] == ks[i] && n[j] == ks[j - 1]);
            lemma_lex_transitive(ks[i], k, ks[j - 1]);
        } else if i == p {
            assert(n[j] == ks[j - 1]);
        } else {
            assert(n[i] == ks[i - 1] && n[j] == ks[j - 1]);
        }
    }
    assert forall|c: Seq<char>| #[trigger] n.contains(c) <==> (ks.contains(c) || c == k) by {
        if n.contains(c) {
            let x = choose|x: int| 0 <= x < n.len() && n[x] == c;
            if x < p {
                assert(ks[x] == c);
            } else if x > p {
                assert(ks[x - 1] == c);
            }
        }
        if ks.contains(c) {
            let x = choose|x: int| 0 <= x < ks.len() && ks[x] == c;
            if x < p {
                assert(n[x] == c);
            } else {
                assert(n[x + 1] == c);
            }
        }
        if c == k {
            assert(n[p] == k);
        }
    }
    if ks.contains(k) {
        let x = choose|x: int| 0 <= x < ks.len() && ks[x] == k;
        lemma_lex_irreflexive(k);
    }
}

/// One ascending listing of the categories, built by insertion.
spec fn ascending_listing(hs: Seq<HolderAmount>) -> Seq<Seq<char>>
    decreases hs.len(),
{
    if hs.len() == 0 {
        Seq::empty()
    } else {
        let ks = ascending_listing(hs.drop_last());
        let k = hs.last().category@;
        let p = first_not_below(ks, k, 0);
        if p < ks.len() && ks[p] == k {
            ks
        } else {
            ks.insert(p, k)
        }
    }
}

proof fn lemma_ascending_listing(hs: Seq<HolderAmount>)
    ensures
        strictly_ascending(ascending_listing(hs)),
        lists_exactly(ascending_listing(hs), category_set(hs)),
    decreases hs.len(),
{
    if hs.len() > 0 {
        let ks = ascending_listing(hs.drop_last());
        let k = hs.last().category@;
        lemma_ascending_listing(hs.drop_last());
        lemma_first_not_below(ks, k, 0);
        let p = first_not_below(ks, k, 0);
        if p < ks.len() && ks[p] == k {
            assert(ks.contains(k));
        } else {
            lemma_insert_at_position(ks, k, p);
        }
    }
}

/// The ascending listing of the categories exists: `sorted_categories` is
/// strictly ascending and holds exactly the categories that occur.
pub proof fn lemma_sorted_categories(hs: Seq<HolderAmount>)
    ensures
        strictly_ascending(sorted_categories(hs)),
        lists_exactly(sorted_categories(hs), category_set(hs)),
{
    lemma_ascending_listing(hs);
}

/// A strictly ascending listing of the categories is `sorted_categories`.
pub proof fn lemma_sorted_categories_unique(hs: Seq<HolderAmount>, ks: Seq<Seq<char>>)
    requires
        strictly_ascending(ks),
        lists_exactly(ks, category_set(hs)),
    ensures
        ks == sorted_categories(hs),
{
    lemma_sorted_categories(hs);
    lemma_ascending_unique(ks, sorted_categories(hs));
}

/// A category that does not occur has a total of zero.
pub proof fn lemma_absent_category_total(hs: Seq<HolderAmount>, c: Seq<char>)
    requires
        !category_set(hs).contains(c),
    ensures
        category_total(hs, c) == 0,
    decreases hs.len(),
{
    if hs.len() > 0 {
        lemma_absent_category_total(hs.drop_last(), c);
    }
}

/// The total over a prefix never exceeds the total over the whole list.
pub proof fn lemma_prefix_total(hs: Seq<HolderAmount>, i: int, c: Seq<char>)
    requires
        0 <= i <= hs.len(),
    ensures
        category_total(hs.take(i), c) <= category_total(hs, c),
    decreases hs.len(),
{
    if i < hs.len() {
        assert(hs.drop_last().take(i) =~= hs.take(i));
        lemma_prefix_total(hs.drop_last(), i, c);
    } else {
        assert(hs.take(i) =~= hs);
    }
}

proof fn lemma_take_step(hs: Seq<HolderAmount>, i: int)
    requires
        0 <= i < hs.len(),
    ensures
        hs.take(i + 1).drop_last() == hs.take(i),
        hs.take(i + 1).last() == hs[i],
{
    assert(hs.take(i + 1).drop_last() =~= hs.take(i));
}

/// A category occurs exactly when some holder carries it.
pub proof fn lemma_category_set_members(hs: Seq<HolderAmount>, c: Seq<char>)
    ensures
        category_set(hs).contains(c) <==> exists|i: int|
            0 <= i < hs.len() && (#[trigger] hs[i]).category@ == c,
    decreases hs.len(),
{
    if hs.len() > 0 {
        lemma_category_set_members(hs.drop_last(), c);
        if category_set(hs.drop_last()).contains(c) {
            let i = choose|i: int| 0 <= i < hs.drop_last().len() && (#[trigger] hs.drop_last()[i]).category@ == c;
            assert(hs[i] == hs.drop_last()[i]);
        }
        if exists|i: int| 0 <= i < hs.len() && (#[trigger] hs[i]).category@ == c {
            let i = choose|i: int| 0 <= i < hs.len() && (#[trigger] hs[i]).category@ == c;
            if i < hs.len() - 1 {
                assert(hs.drop_last()[i] == hs[i]);
            }
        }
    }
}

/// The total of category `c`, computed exactly.
fn category_total_wide(holders: &[HolderAmount], c: &String) -> (t: u128)
    ensures
        t == category_total(holders@, c@),
{
    let ghost hs = holders@;
    let mut t: u128 = 0;
    for j in 0..holders.len()
        invariant
            hs == holders@,
            t == category_total(hs.take(j as int), c@),
            t <= j * (u64::MAX as int),
    {
        proof {
            lemma_take_step(hs, j as int);
        }
        if holders[j].category == *c {
            let ghost a = holders@[j as int].amount;
            assert(t + a <= (j + 1) * (u64::MAX as int)) by (nonlinear_arith)
                requires
                    t <= j * (u64::MAX as int),
                    a <= u64::MAX,
            ;
            assert((j + 1) * (u64::MAX as int) <= u128::MAX) by (nonlinear_arith)
                requires
                    j < usize::MAX,
                    usize::MAX <= u64::MAX,
            ;
            t = t + holders[j].amount as u128;
        } else {
            assert(t <= (j + 1) * (u64::MAX as int)) by (nonlinear_arith)
                requires
                    t <= j * (u64::MAX as int),
            ;
        }
    }
    assert(hs.take(holders.len() as int) =~= hs);
    t
}

/// Whether every category total of `holders` fits in a `u64`, as
/// `normalize_holders` and `diff_claim` require.
pub fn holder_totals_fit(holders: &[HolderAmount]) -> (r: bool)
    ensures
        r == totals_fit(holders@),
{
    let ghost hs = holders@;
    for i in 0..holders.len()
        invariant
            hs == holders@,
            forall|x: int| 0 <= x < i ==> category_total(hs, (#[trigger] hs[x]).category@) <= u64::MAX,
    {
        let t = category_total_wide(holders, &holders[i].category);
        if t > u64::MAX as u128 {
            return false;
        }
    }
    assert forall|c: Seq<char>| #[trigger] category_total(hs, c) <= u64::MAX by {
        lemma_category_set_members(hs, c);
        if !category_set(hs).contains(c) {
            lemma_absent_category_total(hs, c);
        } else {
            let i = choose|i: int| 0 <= i < hs.len() && (#[trigger] hs[i]).category@ == c;
        }
    }
    true
}

/// Sums the amounts of each category: one entry per category, in ascending
/// order of category, holding the category's total.
pub fn normalize_holders(holders: &[HolderAmount]) -> (r: Vec<CategoryTotal>)
    requires
        totals_fit(holders@),
    ensures
        keys_of(r@) == sorted_categories(holders@),
        forall|j: int|
            0 <= j < r@.len() ==> (#[trigger] r@[j]).total == category_total(
                holders@,
                r@[j].category@,
            ),
{
    let mut r: Vec<CategoryTotal> = Vec::new();
    let n = holders.len();
    let ghost hs = holders@;
    for i in 0..n
        invariant
            n == hs.len(),
            hs == holders@,
            totals_fit(hs),
            strictly_ascending(keys_of(r@)),
            lists_exactly(keys_of(r@), category_set(hs.take(i as int))),
            forall|j: int|
                0 <= j < r@.len() ==> (#[trigger] r@[j]).total == category_total(
                    hs.take(i as int),
                    r@[j].category@,
                ),
    {
        let key = chars_of(holders[i].category.as_str());
        let amount = holders[i].amount;
        let ghost ks = keys_of(r@);
        let ghost k = key@;
        proof {
            lemma_take_step(hs, i as int);
        }
        let mut p: usize = 0;
        while p < r.len()
            invariant_except_break
                p <= r@.len(),
                ks == keys_of(r@),
                k == key@,
                forall|x: int| 0 <= x < p ==> lex_lt(#[trigger] ks[x], k),
            ensures
                p <= r@.len(),
                ks == keys_of(r@),
                forall|x: int| 0 <= x < p ==> lex_lt(#[trigger] ks[x], k),
                p < r@.len() ==> !lex_lt(ks[p as int], k),
            decreases r.len() - p,
        {
            assert(ks[p as int] == r@[p as int].category@);
            if !chars_less(&r[p].category, &key) {
                break;
            }
            p = p + 1;
        }
        let ghost prev = r@;
        if p < r.len() && chars_equal(&r[p].category, &key) {
            assert(ks[p as int] == k);
            proof {
                lemma_prefix_total(hs, i + 1, k);
            }
            let mut e = r.remove(p);
            e.total = e.total + amount;
            r.insert(p, e);
            assert(keys_of(r@) =~= ks);
            assert forall|j: int| 0 <= j < r@.len() implies (#[trigger] r@[j]).total
                == category_total(hs.take(i + 1), r@[j].category@) by {
                if j != p {
                    assert(r@[j] == prev[j]);
                    assert(ks[j] == prev[j].category@);
                    lemma_lex_irreflexive(k);
                }
            }
        } else {
            proof {
                lemma_insert_at_position(ks, k, p as int);
                lemma_absent_category_total(hs.take(i as int), k);
            }
            r.insert(p, CategoryTotal { category: key, total: amount });
            assert(keys_of(r@) =~= ks.insert(p as int, k));
            assert forall|j: int| 0 <= j < r@.len() implies (#[trigger] r@[j]).total
                == category_total(hs.take(i + 1), r@[j].category@) by {
                if j < p {
                    assert(r@[j] == prev[j]);
                    assert(ks[j] == prev[j].category@);
                    assert(ks.contains(ks[j]));
                } else if j > p {
                    assert(r@[j] == prev[j - 1]);
                    assert(ks[j - 1] == prev[j - 1].category@);
                    assert(ks.contains(ks[j - 1]));
                }
            }
        }
    }
    proof {
        assert(hs.take(n as int) =~= hs);
        lemma_sorted_categories_unique(hs, keys_of(r@));
    }
    r
}

proof fn lemma_remove_entry(hs: Seq<HolderAmount>, i: int, c: Seq<char>)
    requires
        0 <= i < hs.len(),
    ensures
        category_total(hs, c) == category_total(hs.remove(i), c) + (if hs[i].category@ == c {
            hs[i].amount as nat
        } else {
            0nat
        }),
        category_set(hs) == category_set(hs.remove(i)).insert(hs[i].category@),
    decreases hs.len(),
{
    if i == hs.len() - 1 {
        assert(hs.remove(i) =~= hs.drop_last());
    } else {
        assert(hs.remove(i).drop_last() =~= hs.drop_last().remove(i));
        assert(hs.remove(i).last() == hs.last());
        lemma_remove_entry(hs.drop_last(), i, c);
        assert(hs.drop_last()[i] == hs[i]);
        assert(category_set(hs) =~= category_set(hs.remove(i)).insert(hs[i].category@));
    }
}

/// Holder lists that hold the same entries, in whatever order, have the
/// same categories and the same total for each.
pub proof fn lemma_reordering_keeps_totals(h1: Seq<HolderAmount>, h2: Seq<HolderAmount>)
    requires
        h1.to_multiset() == h2.to_multiset(),
    ensures
        category_set(h1) == category_set(h2),
        forall|c: Seq<char>| #[trigger] category_total(h1, c) == category_total(h2, c),
    decreases h1.len(),
{
    broadcast use vstd::seq_lib::group_to_multiset_ensures;

    if h1.len() == 0 {
        assert(h2.to_multiset().len() == 0);
        assert(h2.len() == 0);
        assert(h1 =~= h2);
    } else {
        let x = h1.last();
        assert(h1.contains(x)) by {
            assert(h1[h1.len() - 1] == x);
        }
        assert(h1.to_multiset().count(x) > 0);
        assert(h2.to_multiset().count(x) > 0);
        assert(h2.contains(x));
        let i = choose|i: int| 0 <= i < h2.len() && h2[i] == x;
        assert(h1.remove(h1.len() - 1) =~= h1.drop_last());
        assert(h1.drop_last().to_multiset() =~= h2.remove(i).to_multiset());
        lemma_reordering_keeps_totals(h1.drop_last(), h2.remove(i));
        assert forall|c: Seq<char>| #[trigger] category_total(h1, c) == category_total(h2, c) by {
            lemma_remove_entry(h2, i, c);
            assert(category_total(h1.drop_last(), c) == category_total(h2.remove(i), c));
        }
        lemma_remove_entry(h2, i, x.category@);
    }
}

/// Replacing one entry by two entries of its category whose amounts add up
/// to it keeps the categories and every total.
pub proof fn lemma_split_entry_keeps_totals(
    hs: Seq<HolderAmount>,
    i: int,
    first: HolderAmount,
    second: HolderAmount,
)
    requires
        0 <= i < hs.len(),
        first.category@ == hs[i].category@,
        second.category@ == hs[i].category@,
        first.amount + second.amount == hs[i].amount,
    ensures
        category_set(hs.update(i, first).push(second)) == category_set(hs),
        forall|c: Seq<char>| #[trigger]
            category_total(hs.update(i, first).push(second), c) == category_total(hs, c),
{
    let u = hs.update(i, first);
    let n = u.push(second);
    assert(n.drop_last() =~= u);
    assert(u.remove(i) =~= hs.remove(i));
    assert forall|c: Seq<char>| #[trigger] category_total(n, c) == category_total(hs, c) by {
        lemma_remove_entry(u, i, c);
        lemma_remove_entry(hs, i, c);
    }
    lemma_remove_entry(u, i, first.category@);
    lemma_remove_entry(hs, i, first.category@);
    assert(category_set(n) =~= category_set(hs));
}

} // verus!
