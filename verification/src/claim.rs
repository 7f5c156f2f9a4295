//! What an allocation claims: which rows, in which order, and what the
//! ledger holds afterwards.
//!
//! The rows of a collection are claimed in the order in which they were
//! inserted. Callers should not build on that order, only on what the laws
//! of this crate state.

use vstd::prelude::*;
use crate::model::{CodeView, is_free, unused_count, used_count};

verus! {

/// The smaller of two numbers.
pub open spec fn least(a: nat, b: nat) -> nat {
    if a <= b {
        a
    } else {
        b
    }
}

/// Row `i` is claimed by an allocation of `n` codes from the collection: it
/// is free, and fewer than `n` free rows of the collection stand before it.
pub open spec fn is_claimed(codes: Seq<CodeView>, collection_id: i64, n: nat, i: int) -> bool {
    &&& 0 <= i < codes.len()
    &&& is_free(codes[i], collection_id)
    &&& unused_count(codes.take(i), collection_id) < n
}

/// The row, marked as issued.
pub open spec fn issued(r: CodeView) -> CodeView {
    CodeView { is_used: true, ..r }
}

/// The rows after an allocation of `n` codes from the collection: the
/// claimed rows are marked as issued, every other row is as it was.
pub open spec fn after_claim(codes: Seq<CodeView>, collection_id: i64, n: nat) -> Seq<CodeView> {
    Seq::new(
        codes.len(),
        |i: int|
            if is_claimed(codes, collection_id, n, i) {
                issued(codes[i])
            } else {
                codes[i]
            },
    )
}

/// The positions of the rows that an allocation of `n` codes from the
/// collection claims, in ascending order.
pub open spec fn claimed_rows(codes: Seq<CodeView>, collection_id: i64, n: nat) -> Seq<int>
    decreases codes.len(),
{
    if codes.len() == 0 {
        Seq::empty()
    } else {
        let rest = claimed_rows(codes.drop_last(), collection_id, n);
        if is_claimed(codes, collection_id, n, codes.len() - 1) {
            rest.push(codes.len() - 1)
        } else {
            rest
        }
    }
}

/// The codes that an allocation of `n` codes from the collection returns:
/// those of the claimed rows, in the order of the rows.
pub open spec fn claimed_codes(codes: Seq<CodeView>, collection_id: i64, n: nat) -> Seq<Seq<char>>
    decreases codes.len(),
{
    if codes.len() == 0 {
        Seq::empty()
    } else {
        let rest = claimed_codes(codes.drop_last(), collection_id, n);
        if is_claimed(codes, collection_id, n, codes.len() - 1) {
            rest.push(codes.last().code)
        } else {
            rest
        }
    }
}

/// Counting the free rows of a prefix one row further adds that row if it
/// is free.
pub proof fn lemma_unused_count_step(codes: Seq<CodeView>, collection_id: i64, i: int)
    requires
        0 <= i < codes.len(),
    ensures
        unused_count(codes.take(i + 1), collection_id) == unused_count(
            codes.take(i),
            collection_id,
        ) + if is_free(codes[i], collection_id) {
            1nat
        } else {
            0nat
        },
{
    assert(codes.take(i + 1).drop_last() == codes.take(i));
}

/// A longer prefix holds at least as many free rows as a shorter one.
pub proof fn lemma_unused_count_monotonic(
    codes: Seq<CodeView>,
    collection_id: i64,
    i: int,
    k: int,
)
    requires
        0 <= i <= k <= codes.len(),
    ensures
        unused_count(codes.take(i), collection_id) <= unused_count(codes.take(k), collection_id),
    decreases k - i,
{
    if i < k {
        lemma_unused_count_monotonic(codes, collection_id, i, k - 1);
        lemma_unused_count_step(codes, collection_id, k - 1);
    }
}

/// Whether a row is claimed does not depend on the rows behind it.
pub proof fn lemma_is_claimed_prefix(
    codes: Seq<CodeView>,
    collection_id: i64,
    n: nat,
    len: int,
    i: int,
)
    requires
        0 <= i < len <= codes.len(),
    ensures
        is_claimed(codes.take(len), collection_id, n, i) == is_claimed(codes, collection_id, n, i),
{
    assert(codes.take(len).take(i) == codes.take(i));
}

/// Once a prefix holds `n` free rows, the rows behind it add nothing to
/// what is claimed.
pub proof fn lemma_claim_saturated(codes: Seq<CodeView>, collection_id: i64, n: nat, i: int)
    requires
        0 <= i <= codes.len(),
        unused_count(codes.take(i), collection_id) >= n,
    ensures
        claimed_codes(codes, collection_id, n) == claimed_codes(codes.take(i), collection_id, n),
        claimed_rows(codes, collection_id, n) == claimed_rows(codes.take(i), collection_id, n),
        forall|k: int| i <= k < codes.len() ==> !is_claimed(codes, collection_id, n, k),
    decreases codes.len() - i,
{
    if i == codes.len() {
        assert(codes.take(i) == codes);
    } else {
        let front = codes.drop_last();
        assert(front.take(i) == codes.take(i));
        lemma_claim_saturated(front, collection_id, n, i);
        assert(front == codes.take(codes.len() - 1));
        lemma_unused_count_monotonic(codes, collection_id, i, codes.len() - 1);
        assert forall|k: int| i <= k < codes.len() implies !is_claimed(
            codes,
            collection_id,
            n,
            k,
        ) by {
            lemma_unused_count_monotonic(codes, collection_id, i, k);
        }
    }
}

/// The rows before the last one are claimed as if the last were not there.
pub proof fn lemma_after_claim_drop_last(codes: Seq<CodeView>, collection_id: i64, n: nat)
    requires
        codes.len() > 0,
    ensures
        after_claim(codes, collection_id, n).drop_last() == after_claim(
            codes.drop_last(),
            collection_id,
            n,
        ),
{
    let front = codes.drop_last();
    assert(front == codes.take(codes.len() - 1));
    assert forall|i: int| 0 <= i < front.len() implies after_claim(codes, collection_id, n)[i]
        == after_claim(front, collection_id, n)[i] by {
        lemma_is_claimed_prefix(codes, collection_id, n, codes.len() - 1, i);
    }
}

/// An allocation returns as many codes as were asked for, or all that are
/// free where those are fewer.
pub proof fn lemma_claimed_len(codes: Seq<CodeView>, collection_id: i64, n: nat)
    ensures
        claimed_codes(codes, collection_id, n).len() == least(
            n,
            unused_count(codes, collection_id),
        ),
        claimed_rows(codes, collection_id, n).len() == least(
            n,
            unused_count(codes, collection_id),
        ),
    decreases codes.len(),
{
    if codes.len() > 0 {
        lemma_claimed_len(codes.drop_last(), collection_id, n);
        assert(codes.drop_last() == codes.take(codes.len() - 1));
    }
}

/// An allocation moves exactly the claimed rows from unused to used, in
/// the collection it was made for.
pub proof fn lemma_claim_counts(codes: Seq<CodeView>, collection_id: i64, n: nat)
    ensures
        unused_count(after_claim(codes, collection_id, n), collection_id) == unused_count(
            codes,
            collection_id,
        ) - least(n, unused_count(codes, collection_id)),
        used_count(after_claim(codes, collection_id, n), collection_id) == used_count(
            codes,
            collection_id,
        ) + least(n, unused_count(codes, collection_id)),
    decreases codes.len(),
{
    if codes.len() > 0 {
        let front = codes.drop_last();
        lemma_claim_counts(front, collection_id, n);
        lemma_after_claim_drop_last(codes, collection_id, n);
        assert(front == codes.take(codes.len() - 1));
    }
}

/// The claimed rows are listed in ascending order, each of them is claimed,
/// and no claimed row is missing from the list.
pub proof fn lemma_claimed_rows_exact(codes: Seq<CodeView>, collection_id: i64, n: nat)
    ensures
        forall|k: int|
            0 <= k < claimed_rows(codes, collection_id, n).len() ==> is_claimed(
                codes,
                collection_id,
                n,
                #[trigger] claimed_rows(codes, collection_id, n)[k],
            ),
        forall|j: int, k: int|
            0 <= j < k < claimed_rows(codes, collection_id, n).len() ==> claimed_rows(
                codes,
                collection_id,
                n,
            )[j] < claimed_rows(codes, collection_id, n)[k],
        forall|i: int|
            is_claimed(codes, collection_id, n, i) ==> claimed_rows(
                codes,
                collection_id,
                n,
            ).contains(i),
    decreases codes.len(),
{
    let rows = claimed_rows(codes, collection_id, n);
    if codes.len() > 0 {
        let front = codes.drop_last();
        let rest = claimed_rows(front, collection_id, n);
        let last = codes.len() - 1;
        lemma_claimed_rows_exact(front, collection_id, n);
        assert(front == codes.take(last));
        assert forall|k: int| 0 <= k < rest.len() implies is_claimed(
            codes,
            collection_id,
            n,
            #[trigger] rest[k],
        ) && rest[k] < last by {
            assert(is_claimed(front, collection_id, n, rest[k]));
            lemma_is_claimed_prefix(codes, collection_id, n, last, rest[k]);
        }
        assert forall|i: int| is_claimed(codes, collection_id, n, i) implies rows.contains(i) by {
            if i < last {
                lemma_is_claimed_prefix(codes, collection_id, n, last, i);
                assert(rest.contains(i));
                let k = choose|k: int| 0 <= k < rest.len() && rest[k] == i;
                assert(rows[k] == i);
            } else {
                assert(rows[rest.len() as int] == i);
            }
        }
    }
}

} // verus!
