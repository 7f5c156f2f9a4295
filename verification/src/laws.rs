//! What holds of the ledger whatever is done with it: no row is issued
//! twice, a pool that runs short gives what it has, the counts of a
//! collection always add up, and registering a title twice registers it
//! once.

use vstd::prelude::*;
use crate::claim::{
    after_claim, claimed_codes, claimed_rows, is_claimed, lemma_after_claim_drop_last,
    lemma_claim_counts, lemma_claimed_len, lemma_claimed_rows_exact,
};
use crate::model::{
    CodeView, CollectionView, LedgerView, ensured, id_of, imported, known,
    lemma_registered_unique, registered, title_count, total_count, unused_count, used_count,
    well_formed,
};

verus! {

/// The rows after a series of allocations, each given by the collection it
/// is made for and the number of codes it asks for, carried out one after
/// the other.
pub open spec fn after_all(codes: Seq<CodeView>, requests: Seq<(i64, nat)>) -> Seq<CodeView>
    decreases requests.len(),
{
    if requests.len() == 0 {
        codes
    } else {
        after_claim(after_all(codes, requests.drop_last()), requests.last().0, requests.last().1)
    }
}

/// The rows that a series of allocations claims, call after call.
pub open spec fn rows_issued(codes: Seq<CodeView>, requests: Seq<(i64, nat)>) -> Seq<int>
    decreases requests.len(),
{
    if requests.len() == 0 {
        Seq::empty()
    } else {
        rows_issued(codes, requests.drop_last()) + claimed_rows(
            after_all(codes, requests.drop_last()),
            requests.last().0,
            requests.last().1,
        )
    }
}

/// No double issuance. However many allocations are made, and whatever
/// they ask for, no row is claimed twice: the rows claimed by all the calls
/// together are pairwise distinct, each of them was unused before the first
/// call and is used after the last. A row that is used stays used, and no
/// allocation changes the text or the collection of a row.
///
/// An allocation has the ledger to itself while it runs, so calls made at
/// the same time take effect in some order, and this holds of every order.
pub proof fn law_no_double_issuance(codes: Seq<CodeView>, requests: Seq<(i64, nat)>)
    ensures
        rows_issued(codes, requests).no_duplicates(),
        after_all(codes, requests).len() == codes.len(),
        forall|k: int|
            0 <= k < rows_issued(codes, requests).len() ==> {
                let row = #[trigger] rows_issued(codes, requests)[k];
                &&& 0 <= row < codes.len()
                &&& !codes[row].is_used
                &&& after_all(codes, requests)[row].is_used
            },
        forall|i: int|
            0 <= i < codes.len() ==> {
                let now = #[trigger] after_all(codes, requests)[i];
                &&& codes[i].is_used ==> now.is_used
                &&& now.code == codes[i].code
                &&& now.collection_id == codes[i].collection_id
            },
    decreases requests.len(),
{
    if requests.len() > 0 {
        let earlier = requests.drop_last();
        let (collection_id, n) = requests.last();
        let state = after_all(codes, earlier);
        let before = rows_issued(codes, earlier);
        let now = claimed_rows(state, collection_id, n);
        let rows = rows_issued(codes, requests);
        law_no_double_issuance(codes, earlier);
        lemma_claimed_rows_exact(state, collection_id, n);
        assert(rows == before + now);
        assert forall|k: int| 0 <= k < rows.len() implies {
            let row = #[trigger] rows[k];
            &&& 0 <= row < codes.len()
            &&& !codes[row].is_used
            &&& after_all(codes, requests)[row].is_used
        } by {
            if k < before.len() {
                assert(rows[k] == before[k]);
            } else {
                assert(rows[k] == now[k - before.len()]);
                assert(is_claimed(state, collection_id, n, now[k - before.len()]));
            }
        }
        assert forall|j: int, k: int| 0 <= j < k < rows.len() implies rows[j] != rows[k] by {
            if k < before.len() {
                assert(rows[j] == before[j] && rows[k] == before[k]);
            } else if j < before.len() {
                assert(rows[j] == before[j]);
                assert(rows[k] == now[k - before.len()]);
                assert(is_claimed(state, collection_id, n, now[k - before.len()]));
                assert(state[before[j]].is_used);
            } else {
                assert(rows[j] == now[j - before.len()]);
                assert(rows[k] == now[k - before.len()]);
            }
        }
    }
}

/// The rows that a series of allocations from one collection claims are
/// never more than the collection had unused before the first call: what
/// was claimed and what is still unused add up to what was unused.
pub proof fn law_issued_within_unused(
    codes: Seq<CodeView>,
    requests: Seq<(i64, nat)>,
    collection_id: i64,
)
    requires
        forall|k: int| 0 <= k < requests.len() ==> (#[trigger] requests[k]).0 == collection_id,
    ensures
        rows_issued(codes, requests).len() + unused_count(
            after_all(codes, requests),
            collection_id,
        ) == unused_count(codes, collection_id),
        rows_issued(codes, requests).len() <= unused_count(codes, collection_id),
    decreases requests.len(),
{
    if requests.len() > 0 {
        let earlier = requests.drop_last();
        let state = after_all(codes, earlier);
        assert(requests.last() == requests[requests.len() - 1]);
        assert forall|k: int| 0 <= k < earlier.len() implies (#[trigger] earlier[k]).0
            == collection_id by {
            assert(earlier[k] == requests[k]);
        }
        law_issued_within_unused(codes, earlier, collection_id);
        lemma_claimed_len(state, collection_id, requests.last().1);
        lemma_claim_counts(state, collection_id, requests.last().1);
    }
}

/// Short allocation. Where a collection holds fewer unused codes than are
/// asked for, the allocation returns exactly those, marks exactly those as
/// used, and leaves none unused.
pub proof fn law_short_allocation(codes: Seq<CodeView>, collection_id: i64, n: nat)
    requires
        unused_count(codes, collection_id) < n,
    ensures
        claimed_codes(codes, collection_id, n).len() == unused_count(codes, collection_id),
        claimed_rows(codes, collection_id, n).len() == unused_count(codes, collection_id),
        unused_count(after_claim(codes, collection_id, n), collection_id) == 0,
        used_count(after_claim(codes, collection_id, n), collection_id) == used_count(
            codes,
            collection_id,
        ) + unused_count(codes, collection_id),
        forall|i: int|
            0 <= i < codes.len() ==> (#[trigger] after_claim(codes, collection_id, n)[i]).is_used
                == (codes[i].is_used || claimed_rows(codes, collection_id, n).contains(i)),
{
    lemma_claimed_len(codes, collection_id, n);
    lemma_claim_counts(codes, collection_id, n);
    lemma_claimed_rows_exact(codes, collection_id, n);
    let rows = claimed_rows(codes, collection_id, n);
    assert forall|i: int| 0 <= i < codes.len() implies (#[trigger] after_claim(
        codes,
        collection_id,
        n,
    )[i]).is_used == (codes[i].is_used || rows.contains(i)) by {
        if rows.contains(i) {
            let k = choose|k: int| 0 <= k < rows.len() && rows[k] == i;
            assert(is_claimed(codes, collection_id, n, rows[k]));
        }
    }
}

/// An allocation returns the codes of the rows that it claims, row by row:
/// what is said of the claimed rows is said of the codes that were handed
/// out.
pub proof fn law_codes_of_claimed_rows(codes: Seq<CodeView>, collection_id: i64, n: nat)
    ensures
        claimed_codes(codes, collection_id, n).len() == claimed_rows(
            codes,
            collection_id,
            n,
        ).len(),
        forall|k: int|
            0 <= k < claimed_rows(codes, collection_id, n).len() ==> #[trigger] claimed_codes(
                codes,
                collection_id,
                n,
            )[k] == codes[claimed_rows(codes, collection_id, n)[k]].code,
    decreases codes.len(),
{
    if codes.len() > 0 {
        let front = codes.drop_last();
        law_codes_of_claimed_rows(front, collection_id, n);
        lemma_claimed_rows_exact(front, collection_id, n);
    }
}

/// An allocation is local to its collection: it leaves the total of every
/// collection, and the used and unused counts of every other collection,
/// as they were.
pub proof fn law_allocation_is_local(
    codes: Seq<CodeView>,
    collection_id: i64,
    n: nat,
    other: i64,
)
    ensures
        total_count(after_claim(codes, collection_id, n), other) == total_count(codes, other),
        other != collection_id ==> unused_count(after_claim(codes, collection_id, n), other)
            == unused_count(codes, other),
        other != collection_id ==> used_count(after_claim(codes, collection_id, n), other)
            == used_count(codes, other),
    decreases codes.len(),
{
    if codes.len() > 0 {
        law_allocation_is_local(codes.drop_last(), collection_id, n, other);
        lemma_after_claim_drop_last(codes, collection_id, n);
    }
}

/// An import adds one unused row per line to its collection and nothing
/// anywhere else.
pub proof fn law_import_counts(
    codes: Seq<CodeView>,
    lines: Seq<Seq<char>>,
    collection_id: i64,
    other: i64,
)
    ensures
        total_count(codes + imported(lines, collection_id), collection_id) == total_count(
            codes,
            collection_id,
        ) + lines.len(),
        unused_count(codes + imported(lines, collection_id), collection_id) == unused_count(
            codes,
            collection_id,
        ) + lines.len(),
        used_count(codes + imported(lines, other), collection_id) == used_count(
            codes,
            collection_id,
        ),
        other != collection_id ==> total_count(codes + imported(lines, other), collection_id)
            == total_count(codes, collection_id),
        other != collection_id ==> unused_count(codes + imported(lines, other), collection_id)
            == unused_count(codes, collection_id),
    decreases lines.len(),
{
    if lines.len() == 0 {
        assert(codes + imported(lines, collection_id) == codes);
        assert(codes + imported(lines, other) == codes);
    } else {
        let front = lines.drop_last();
        law_import_counts(codes, front, collection_id, other);
        assert((codes + imported(lines, collection_id)).drop_last() == codes + imported(
            front,
            collection_id,
        ));
        assert((codes + imported(lines, other)).drop_last() == codes + imported(front, other));
    }
}

/// Conservation. In every state of the ledger the used and the unused
/// codes of a collection add up to its total.
pub proof fn law_conservation(codes: Seq<CodeView>, collection_id: i64)
    ensures
        unused_count(codes, collection_id) + used_count(codes, collection_id) == total_count(
            codes,
            collection_id,
        ),
    decreases codes.len(),
{
    if codes.len() > 0 {
        law_conservation(codes.drop_last(), collection_id);
    }
}

/// A title that no two collections share is carried by one collection if
/// some collection carries it, and by none otherwise.
pub proof fn lemma_title_count(collections: Seq<CollectionView>, title: Seq<char>)
    requires
        forall|i: int, j: int|
            0 <= i < j < collections.len() ==> (#[trigger] collections[i]).title != (
            #[trigger] collections[j]).title,
    ensures
        title_count(collections, title) == if exists|i: int|
            0 <= i < collections.len() && (#[trigger] collections[i]).title == title {
            1nat
        } else {
            0nat
        },
    decreases collections.len(),
{
    if collections.len() > 0 {
        let front = collections.drop_last();
        let last = collections.len() - 1;
        assert forall|i: int, j: int| 0 <= i < j < front.len() implies (#[trigger] front[i]).title
            != (#[trigger] front[j]).title by {
            assert(front[i] == collections[i] && front[j] == collections[j]);
        }
        lemma_title_count(front, title);
        if exists|i: int| 0 <= i < front.len() && (#[trigger] front[i]).title == title {
            let i = choose|i: int| 0 <= i < front.len() && (#[trigger] front[i]).title == title;
            assert(collections[i].title == title);
            assert(collections[i].title != collections[last].title);
        } else if collections[last].title == title {
        } else {
            assert forall|i: int| 0 <= i < collections.len() implies (
            #[trigger] collections[i]).title != title by {
                if i < last {
                    assert(front[i] == collections[i]);
                }
            }
        }
    }
}

/// Idempotent registry. Resolving or creating a title leaves a well-formed
/// state in which exactly one collection carries the title; doing it again
/// changes nothing and finds the same identifier.
pub proof fn law_registry_idempotent(v: LedgerView, title: Seq<char>)
    requires
        well_formed(v),
        known(v, title) || v.collections.len() < i64::MAX,
    ensures
        well_formed(ensured(v, title)),
        registered(ensured(v, title), title, id_of(ensured(v, title), title)),
        title_count(ensured(v, title).collections, title) == 1,
        ensured(ensured(v, title), title) == ensured(v, title),
        forall|first: i64, second: i64|
            registered(ensured(v, title), title, first) && registered(
                ensured(ensured(v, title), title),
                title,
                second,
            ) ==> first == second,
        known(v, title) ==> id_of(ensured(v, title), title) == id_of(v, title),
{
    let w = ensured(v, title);
    if known(v, title) {
        let id = choose|id: i64| registered(v, title, id);
        lemma_registered_unique(v, title, id);
    } else {
        let id = (v.collections.len() + 1) as i64;
        assert forall|i: int, j: int| 0 <= i < j < w.collections.len() implies (
        #[trigger] w.collections[i]).title != (#[trigger] w.collections[j]).title by {
            if j == v.collections.len() {
                assert(registered(v, title, (i + 1) as i64) ==> known(v, title));
            }
        }
        assert(registered(w, title, id));
        lemma_registered_unique(w, title, id);
    }
    let id = id_of(w, title);
    lemma_registered_unique(w, title, id);
    lemma_title_count(w.collections, title);
    assert(w.collections[id - 1].title == title);
}

} // verus!
