//! The mathematical model of the ledger: what a state holds, when it is
//! well formed, and how its rows are counted.

use vstd::prelude::*;

verus! {

/// A named pool of codes.
pub struct CollectionView {
    pub id: i64,
    pub title: Seq<char>,
}

/// One code of the ledger. Its position in the ledger is its identity: two
/// rows may carry the same text.
pub struct CodeView {
    pub code: Seq<char>,
    pub collection_id: i64,
    pub is_used: bool,
}

/// A state of the ledger: the registry of collections, the code rows in the
/// order in which they were inserted, and the number of rows that fit.
pub struct LedgerView {
    pub collections: Seq<CollectionView>,
    pub codes: Seq<CodeView>,
    pub capacity: nat,
}

/// Identifiers are handed out in sequence starting at one, no title occurs
/// twice, every code belongs to a collection of the registry, and the rows
/// fit.
pub open spec fn well_formed(v: LedgerView) -> bool {
    &&& v.collections.len() <= i64::MAX
    &&& v.codes.len() <= v.capacity <= i64::MAX
    &&& forall|i: int| 0 <= i < v.collections.len() ==> (#[trigger] v.collections[i]).id == i + 1
    &&& forall|i: int, j: int|
        0 <= i < j < v.collections.len() ==> (#[trigger] v.collections[i]).title != (
        #[trigger] v.collections[j]).title
    &&& forall|k: int|
        0 <= k < v.codes.len() ==> 1 <= (#[trigger] v.codes[k]).collection_id
            <= v.collections.len()
}

/// The collection `id` exists.
pub open spec fn has_collection(v: LedgerView, id: i64) -> bool {
    1 <= id <= v.collections.len()
}

/// The collection `id` exists and carries `title`.
pub open spec fn registered(v: LedgerView, title: Seq<char>, id: i64) -> bool {
    has_collection(v, id) && v.collections[id - 1].title == title
}

/// Some collection carries `title`.
pub open spec fn known(v: LedgerView, title: Seq<char>) -> bool {
    exists|id: i64| registered(v, title, id)
}

/// The number of collections that carry `title`.
pub open spec fn title_count(collections: Seq<CollectionView>, title: Seq<char>) -> nat
    decreases collections.len(),
{
    if collections.len() == 0 {
        0
    } else {
        title_count(collections.drop_last(), title) + if collections.last().title == title {
            1nat
        } else {
            0nat
        }
    }
}

/// The row belongs to the collection.
pub open spec fn is_member(r: CodeView, collection_id: i64) -> bool {
    r.collection_id == collection_id
}

/// The row belongs to the collection and has not been issued.
pub open spec fn is_free(r: CodeView, collection_id: i64) -> bool {
    r.collection_id == collection_id && !r.is_used
}

/// The row belongs to the collection and has been issued.
pub open spec fn is_taken(r: CodeView, collection_id: i64) -> bool {
    r.collection_id == collection_id && r.is_used
}

/// How many of the rows belong to the collection.
pub open spec fn total_count(codes: Seq<CodeView>, collection_id: i64) -> nat
    decreases codes.len(),
{
    if codes.len() == 0 {
        0
    } else {
        total_count(codes.drop_last(), collection_id) + if is_member(codes.last(), collection_id) {
            1nat
        } else {
            0nat
        }
    }
}

/// How many rows of the collection have been issued.
pub open spec fn used_count(codes: Seq<CodeView>, collection_id: i64) -> nat
    decreases codes.len(),
{
    if codes.len() == 0 {
        0
    } else {
        used_count(codes.drop_last(), collection_id) + if is_taken(codes.last(), collection_id) {
            1nat
        } else {
            0nat
        }
    }
}

/// How many rows of the collection are still to be issued.
pub open spec fn unused_count(codes: Seq<CodeView>, collection_id: i64) -> nat
    decreases codes.len(),
{
    if codes.len() == 0 {
        0
    } else {
        unused_count(codes.drop_last(), collection_id) + if is_free(codes.last(), collection_id) {
            1nat
        } else {
            0nat
        }
    }
}

/// The state after a collection with `title` has been added to the registry.
pub open spec fn with_collection(v: LedgerView, title: Seq<char>) -> LedgerView {
    LedgerView {
        collections: v.collections.push(
            CollectionView { id: (v.collections.len() + 1) as i64, title },
        ),
        ..v
    }
}

/// The rows that an import of `lines` into the collection adds: one per
/// line, in order, each unused and holding the line without the white space
/// around it. A line that is empty after trimming gives a row with an empty
/// code.
pub open spec fn imported(lines: Seq<Seq<char>>, collection_id: i64) -> Seq<CodeView> {
    lines.map_values(
        |line: Seq<char>|
            CodeView { code: crate::text::trimmed(line), collection_id, is_used: false },
    )
}

/// The state after `rows` have been appended to the ledger.
pub open spec fn with_codes(v: LedgerView, rows: Seq<CodeView>) -> LedgerView {
    LedgerView { codes: v.codes + rows, ..v }
}

/// The identifier of the collection that carries `title`.
pub open spec fn id_of(v: LedgerView, title: Seq<char>) -> i64 {
    choose|id: i64| registered(v, title, id)
}

/// The state in which `title` is certain to be registered: the state
/// itself where it already is, else the state with that collection added.
pub open spec fn ensured(v: LedgerView, title: Seq<char>) -> LedgerView {
    if known(v, title) {
        v
    } else {
        with_collection(v, title)
    }
}

/// The state after `lines` have been loaded under `title`: the collection
/// is registered if it was not, and one row per line is appended to it.
pub open spec fn loaded(v: LedgerView, title: Seq<char>, lines: Seq<Seq<char>>) -> LedgerView {
    let w = ensured(v, title);
    with_codes(w, imported(lines, id_of(w, title)))
}

/// A load into `v` can be carried out: the registry can take the title if
/// it is new, and the ledger can take the rows.
pub open spec fn can_load(v: LedgerView, title: Seq<char>, lines: nat) -> bool {
    &&& known(v, title) || v.collections.len() < i64::MAX
    &&& v.codes.len() + lines <= v.capacity
}

/// In a well-formed state a title belongs to one collection at most.
pub proof fn lemma_registered_unique(v: LedgerView, title: Seq<char>, id: i64)
    requires
        well_formed(v),
        registered(v, title, id),
    ensures
        known(v, title),
        id_of(v, title) == id,
        forall|other: i64| registered(v, title, other) ==> other == id,
{
    assert forall|other: i64| registered(v, title, other) implies other == id by {
        if other < id {
            assert(v.collections[other - 1].title != v.collections[id - 1].title);
        } else if id < other {
            assert(v.collections[id - 1].title != v.collections[other - 1].title);
        }
    }
}

} // verus!
