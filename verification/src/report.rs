//! The report on the ledger: one entry per collection, with its total,
//! used and unused counts, smallest collection first.

use vstd::prelude::*;
use crate::model::{LedgerView, total_count, unused_count, used_count};

verus! {

/// The counts of one collection, as they are reported.
#[derive(Clone, Debug, PartialEq, Eq)]
pub struct CategoryListing {
    pub title: String,
    pub total_keys: i64,
    pub used_keys: i64,
    pub unused_keys: i64,
}

/// What an entry of the report says.
pub struct ListingView {
    pub title: Seq<char>,
    pub total_keys: int,
    pub used_keys: int,
    pub unused_keys: int,
}

impl View for CategoryListing {
    type V = ListingView;

    open spec fn view(&self) -> ListingView {
        ListingView {
            title: self.title@,
            total_keys: self.total_keys as int,
            used_keys: self.used_keys as int,
            unused_keys: self.unused_keys as int,
        }
    }
}

impl CategoryListing {
    /// An entry from what an aggregate over the ledger gives: a count that
    /// the aggregate left out stands for no rows and is taken as zero.
    pub fn from_counts(
        title: String,
        total_keys: Option<i64>,
        used_keys: Option<i64>,
        unused_keys: Option<i64>,
    ) -> (r: CategoryListing)
        ensures
            r@.title == title@,
            r@.total_keys == or_zero(total_keys),
            r@.used_keys == or_zero(used_keys),
            r@.unused_keys == or_zero(unused_keys),
    {
        CategoryListing {
            title,
            total_keys: match total_keys {
                Some(n) => n,
                None => 0,
            },
            used_keys: match used_keys {
                Some(n) => n,
                None => 0,
            },
            unused_keys: match unused_keys {
                Some(n) => n,
                None => 0,
            },
        }
    }

    /// Whether the used and the unused codes of the entry add up to its
    /// total.
    pub fn is_balanced(&self) -> (r: bool)
        ensures
            r == (self@.total_keys == self@.used_keys + self@.unused_keys),
    {
        self.total_keys as i128 == self.used_keys as i128 + self.unused_keys as i128
    }
}

/// The count, or zero where there is none.
pub open spec fn or_zero(count: Option<i64>) -> int {
    match count {
        Some(n) => n as int,
        None => 0,
    }
}

/// What each entry of a report says.
pub open spec fn listing_views(entries: Seq<CategoryListing>) -> Seq<ListingView> {
    entries.map_values(|e: CategoryListing| e@)
}

/// The number of codes of the collection at position `c` of the registry.
pub open spec fn size_of(v: LedgerView, c: int) -> nat {
    total_count(v.codes, v.collections[c].id)
}

/// The entry that reports on the collection at position `c` of the
/// registry.
pub open spec fn listing_of(v: LedgerView, c: int) -> ListingView {
    ListingView {
        title: v.collections[c].title,
        total_keys: total_count(v.codes, v.collections[c].id) as int,
        used_keys: used_count(v.codes, v.collections[c].id) as int,
        unused_keys: unused_count(v.codes, v.collections[c].id) as int,
    }
}

/// The registry holds a collection at position `c`. Every collection has
/// an entry in the report, also one without codes.
pub open spec fn is_listed(v: LedgerView, c: int) -> bool {
    0 <= c < v.collections.len()
}

/// The collection at position `a` stands before the one at `b` in the
/// report: it holds fewer codes, or as many and was registered first.
pub open spec fn ranked_before(v: LedgerView, a: int, b: int) -> bool {
    size_of(v, a) < size_of(v, b) || (size_of(v, a) == size_of(v, b) && a < b)
}

/// `order` lists the positions of the first `m` collections of the
/// registry, each once, smallest first.
pub open spec fn is_order_of_first(v: LedgerView, order: Seq<int>, m: int) -> bool {
    &&& forall|k: int| 0 <= k < order.len() ==> is_listed(v, #[trigger] order[k]) && order[k] < m
    &&& forall|c: int| 0 <= c < m && is_listed(v, c) ==> #[trigger] order.contains(c)
    &&& forall|j: int, k: int|
        0 <= j < k < order.len() ==> ranked_before(v, #[trigger] order[j], #[trigger] order[k])
}

/// `order` is the order of the report: the positions of all collections,
/// each once, in ascending order of their totals, and in the order of
/// registration where totals are equal.
pub open spec fn is_summary_order(v: LedgerView, order: Seq<int>) -> bool {
    is_order_of_first(v, order, v.collections.len() as int)
}

/// The entries of the collections at the positions of `order`.
pub open spec fn listings_in(v: LedgerView, order: Seq<int>) -> Seq<ListingView> {
    order.map_values(|c: int| listing_of(v, c))
}

/// `entries` is the report on `v`: some order is the order of the report,
/// and the entries are those of the collections in that order.
pub open spec fn is_summary(v: LedgerView, entries: Seq<ListingView>) -> bool {
    exists|order: Seq<int>| #[trigger]
        is_summary_order(v, order) && listings_in(v, order) == entries
}

/// A state has one order of the report and no other.
pub proof fn lemma_summary_order_unique(v: LedgerView, a: Seq<int>, b: Seq<int>, m: int)
    requires
        is_order_of_first(v, a, m),
        is_order_of_first(v, b, m),
    ensures
        a == b,
{
    lemma_sorted_same_members(v, a, b);
}

/// Two lists in the order of the report that hold the same positions are
/// the same list.
proof fn lemma_sorted_same_members(v: LedgerView, a: Seq<int>, b: Seq<int>)
    requires
        forall|j: int, k: int|
            0 <= j < k < a.len() ==> ranked_before(v, #[trigger] a[j], #[trigger] a[k]),
        forall|j: int, k: int|
            0 <= j < k < b.len() ==> ranked_before(v, #[trigger] b[j], #[trigger] b[k]),
        forall|c: int| a.contains(c) <==> b.contains(c),
    ensures
        a == b,
    decreases a.len(),
{
    if a.len() == 0 {
        if b.len() > 0 {
            assert(b.contains(b[0]));
        }
        assert(a == b);
    } else {
        let x = a.last();
        assert(a.contains(x));
        assert(b.contains(x));
        let y = b.last();
        assert(b.contains(y));
        assert(a.contains(y));
        let kx = choose|k: int| 0 <= k < b.len() && b[k] == x;
        let jy = choose|j: int| 0 <= j < a.len() && a[j] == y;
        if kx < b.len() - 1 {
            assert(ranked_before(v, b[kx], b[b.len() - 1]));
        }
        if jy < a.len() - 1 {
            assert(ranked_before(v, a[jy], a[a.len() - 1]));
        }
        assert(x == y);
        let a0 = a.drop_last();
        let b0 = b.drop_last();
        assert forall|c: int| a0.contains(c) <==> b0.contains(c) by {
            if a0.contains(c) {
                let i = choose|i: int| 0 <= i < a0.len() && a0[i] == c;
                assert(a[i] == c);
                assert(ranked_before(v, a[i], a[a.len() - 1]));
                assert(a.contains(c));
                let k = choose|k: int| 0 <= k < b.len() && b[k] == c;
                assert(b0[k] == c);
            }
            if b0.contains(c) {
                let i = choose|i: int| 0 <= i < b0.len() && b0[i] == c;
                assert(b[i] == c);
                assert(ranked_before(v, b[i], b[b.len() - 1]));
                assert(b.contains(c));
                let k = choose|k: int| 0 <= k < a.len() && a[k] == c;
                assert(a0[k] == c);
            }
        }
        assert forall|j: int, k: int| 0 <= j < k < a0.len() implies ranked_before(
            v,
            #[trigger] a0[j],
            #[trigger] a0[k],
        ) by {
            assert(a0[j] == a[j] && a0[k] == a[k]);
        }
        assert forall|j: int, k: int| 0 <= j < k < b0.len() implies ranked_before(
            v,
            #[trigger] b0[j],
            #[trigger] b0[k],
        ) by {
            assert(b0[j] == b[j] && b0[k] == b[k]);
        }
        lemma_sorted_same_members(v, a0, b0);
        assert(a == a0.push(x));
        assert(b == b0.push(y));
    }
}

/// The report on a state is determined by the state: two reports on it are
/// the same, entry for entry.
pub proof fn law_summary_unique(v: LedgerView, first: Seq<ListingView>, second: Seq<ListingView>)
    requires
        is_summary(v, first),
        is_summary(v, second),
    ensures
        first == second,
{
    let a = choose|order: Seq<int>| #[trigger]
        is_summary_order(v, order) && listings_in(v, order) == first;
    let b = choose|order: Seq<int>| #[trigger]
        is_summary_order(v, order) && listings_in(v, order) == second;
    lemma_summary_order_unique(v, a, b, v.collections.len() as int);
}

} // verus!
