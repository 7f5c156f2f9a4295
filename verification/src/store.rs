//! The ledger itself: the registry of collections and the code rows, held
//! in memory, with each operation taking effect as a whole or not at all.

use vstd::prelude::*;
use vstd::string::*;
use crate::error::LedgerError;
use crate::claim::{
    after_claim, claimed_codes, is_claimed, least, lemma_claim_counts, lemma_claim_saturated,
    lemma_claimed_len, lemma_unused_count_step,
};
use crate::model::{
    CodeView, CollectionView, LedgerView, can_load, ensured, has_collection, id_of, imported,
    known, lemma_registered_unique, loaded, registered, total_count, unused_count, used_count,
    well_formed, with_codes,
};
use crate::report::{
    CategoryListing, is_listed, is_order_of_first, is_summary, is_summary_order, listing_of,
    listing_views, listings_in, ranked_before, size_of,
};
use crate::text::{texts, trim};

verus! {

/// A named pool of codes.
#[derive(Clone, Debug, PartialEq, Eq)]
pub struct Collection {
    pub id: i64,
    pub title: String,
}

impl View for Collection {
    type V = CollectionView;

    open spec fn view(&self) -> CollectionView {
        CollectionView { id: self.id, title: self.title@ }
    }
}

/// One code of the ledger. A code is issued once: the flag goes from unused
/// to used and never back.
#[derive(Clone, Debug, PartialEq, Eq)]
pub struct CodeRow {
    pub code: String,
    pub collection_id: i64,
    pub is_used: bool,
}

impl View for CodeRow {
    type V = CodeView;

    open spec fn view(&self) -> CodeView {
        CodeView { code: self.code@, collection_id: self.collection_id, is_used: self.is_used }
    }
}

/// The largest number of rows that a ledger can be made to hold.
pub const MAX_ROWS: u64 = 0x7fff_ffff_ffff_ffff;

/// The ledger: collections and their codes.
pub struct Store {
    collections: Vec<Collection>,
    codes: Vec<CodeRow>,
    capacity: u64,
}

impl View for Store {
    type V = LedgerView;

    closed spec fn view(&self) -> LedgerView {
        LedgerView {
            collections: self.collections@.map_values(|c: Collection| c@),
            codes: self.codes@.map_values(|r: CodeRow| r@),
            capacity: self.capacity as nat,
        }
    }
}

impl Store {
    /// The state is well formed.
    pub open spec fn wf(&self) -> bool {
        well_formed(self@)
    }

    /// An empty ledger that takes as many rows as the machine can hold.
    pub fn new() -> (s: Store)
        ensures
            s.wf(),
            s@.collections.len() == 0,
            s@.codes.len() == 0,
            s@.capacity == MAX_ROWS,
    {
        Store { collections: Vec::new(), codes: Vec::new(), capacity: MAX_ROWS }
    }

    /// An empty ledger that takes at most `capacity` rows. An insertion
    /// beyond that fails as a full backend would.
    pub fn with_capacity(capacity: u64) -> (s: Store)
        ensures
            s.wf(),
            s@.collections.len() == 0,
            s@.codes.len() == 0,
            s@.capacity == if capacity <= MAX_ROWS { capacity } else { MAX_ROWS },
    {
        Store {
            collections: Vec::new(),
            codes: Vec::new(),
            capacity: if capacity <= MAX_ROWS { capacity } else { MAX_ROWS },
        }
    }

    /// Looks a collection up by its exact title.
    pub fn resolve(&self, title: &str) -> (r: Result<i64, LedgerError>)
        requires
            self.wf(),
        ensures
            match r {
                Ok(id) => registered(self@, title@, id),
                Err(e) => e == LedgerError::NotFound && !known(self@, title@),
            },
    {
        let wanted = String::from_str(title);
        let n: usize = self.collections.len();
        let mut i: usize = 0;
        while i < n
            invariant
                i <= n,
                n == self.collections@.len(),
                self.wf(),
                wanted@ == title@,
                forall|k: int| 0 <= k < i ==> (#[trigger] self@.collections[k]).title != title@,
            decreases n - i,
        {
            if self.collections[i].title == wanted {
                assert(self@.collections[i as int] == self.collections@[i as int]@);
                return Ok(self.collections[i].id);
            }
            assert(self@.collections[i as int] == self.collections@[i as int]@);
            i += 1;
        }
        assert(!known(self@, title@)) by {
            if known(self@, title@) {
                let id = choose|id: i64| registered(self@, title@, id);
                assert(self@.collections[id - 1].title == title@);
            }
        }
        Err(LedgerError::NotFound)
    }

    /// Looks a collection up by its title and registers it if it is new.
    /// Fails only where the registry cannot take another collection.
    pub fn resolve_or_create(&mut self, title: &str) -> (r: Result<i64, LedgerError>)
        requires
            old(self).wf(),
        ensures
            final(self).wf(),
            known(old(self)@, title@) || old(self)@.collections.len() < i64::MAX ==> r is Ok,
            match r {
                Ok(id) => registered(final(self)@, title@, id) && final(self)@ == ensured(
                    old(self)@,
                    title@,
                ),
                Err(e) => e == LedgerError::Backend && final(self)@ == old(self)@,
            },
    {
        match self.resolve(title) {
            Ok(id) => Ok(id),
            Err(_) => {
                let n: usize = self.collections.len();
                if n as u64 >= MAX_ROWS {
                    return Err(LedgerError::Backend);
                }
                let id: i64 = (n as u64 + 1) as i64;
                self.collections.push(Collection { id, title: String::from_str(title) });
                proof {
                    assert(self@.collections == old(self)@.collections.push(
                        CollectionView { id, title: title@ },
                    ));
                    assert forall|i: int, j: int|
                        0 <= i < j < self@.collections.len() implies (
                    #[trigger] self@.collections[i]).title != (
                    #[trigger] self@.collections[j]).title by {
                        if j == n {
                            assert(registered(old(self)@, title@, (i + 1) as i64) ==> known(
                                old(self)@,
                                title@,
                            ));
                        }
                    }
                }
                Ok(id)
            },
        }
    }

    /// Inserts one unused row per line into the collection, each holding the
    /// line without the white space around it. Either every line is
    /// inserted or, where the collection does not exist or the ledger
    /// cannot take them all, none is.
    pub fn bulk_import(&mut self, collection_id: i64, lines: &Vec<String>) -> (r: Result<
        usize,
        LedgerError,
    >)
        requires
            old(self).wf(),
        ensures
            final(self).wf(),
            match r {
                Ok(n) => {
                    &&& has_collection(old(self)@, collection_id)
                    &&& old(self)@.codes.len() + lines@.len() <= old(self)@.capacity
                    &&& n == lines@.len()
                    &&& final(self)@ == with_codes(
                        old(self)@,
                        imported(texts(lines@), collection_id),
                    )
                },
                Err(e) => {
                    &&& final(self)@ == old(self)@
                    &&& if has_collection(old(self)@, collection_id) {
                        e == LedgerError::Backend && old(self)@.codes.len() + lines@.len() > old(
                            self,
                        )@.capacity
                    } else {
                        e == LedgerError::NotFound
                    }
                },
            },
    {
        if collection_id < 1 || collection_id as u64 > self.collections.len() as u64 {
            return Err(LedgerError::NotFound);
        }
        let start: usize = self.codes.len();
        let n: usize = lines.len();
        let mut i: usize = 0;
        while i < n
            invariant
                i <= n,
                n == lines@.len(),
                start == old(self)@.codes.len(),
                has_collection(old(self)@, collection_id),
                old(self).wf(),
                self.wf(),
                self@ == with_codes(
                    old(self)@,
                    imported(texts(lines@).take(i as int), collection_id),
                ),
            decreases n - i,
        {
            if self.codes.len() as u64 >= self.capacity {
                let ghost filled = self@;
                self.codes.truncate(start);
                assert(self@.codes == old(self)@.codes) by {
                    assert(self@.codes.len() == start);
                    assert forall|k: int| 0 <= k < start implies self@.codes[k] == old(
                        self,
                    )@.codes[k] by {
                        assert(self@.codes[k] == filled.codes[k]);
                    }
                }
                assert(self@.collections == filled.collections);
                assert(self@ == old(self)@);
                return Err(LedgerError::Backend);
            }
            let ghost before = self@;
            let code = trim(lines[i].as_str());
            self.codes.push(CodeRow { code, collection_id, is_used: false });
            proof {
                let row = CodeView {
                    code: crate::text::trimmed(lines@[i as int]@),
                    collection_id,
                    is_used: false,
                };
                assert(self@.codes == before.codes.push(row));
                assert(imported(texts(lines@).take(i + 1), collection_id) == imported(
                    texts(lines@).take(i as int),
                    collection_id,
                ).push(row));
            }
            i += 1;
        }
        assert(texts(lines@).take(n as int) == texts(lines@));
        Ok(n)
    }

    /// Loads `lines` under `title` as one unit of work: the collection is
    /// registered if the title is new, then every line is inserted. Where
    /// the backend cannot take all of it, nothing of it stays, not even the
    /// new collection.
    pub fn load_codes(&mut self, title: &str, lines: &Vec<String>) -> (r: Result<
        usize,
        LedgerError,
    >)
        requires
            old(self).wf(),
        ensures
            final(self).wf(),
            r is Ok <==> can_load(old(self)@, title@, lines@.len()),
            match r {
                Ok(n) => n == lines@.len() && final(self)@ == loaded(
                    old(self)@,
                    title@,
                    texts(lines@),
                ),
                Err(e) => e == LedgerError::Backend && final(self)@ == old(self)@,
            },
    {
        let registry: usize = self.collections.len();
        let id: i64 = match self.resolve_or_create(title) {
            Ok(id) => id,
            Err(e) => {
                return Err(e);
            },
        };
        proof {
            lemma_registered_unique(self@, title@, id);
        }
        match self.bulk_import(id, lines) {
            Ok(n) => Ok(n),
            Err(e) => {
                let ghost extended = self@;
                self.collections.truncate(registry);
                assert(self@.collections == old(self)@.collections) by {
                    assert(self@.collections.len() == registry);
                    assert forall|k: int| 0 <= k < registry implies self@.collections[k] == old(
                        self,
                    )@.collections[k] by {
                        assert(self@.collections[k] == extended.collections[k]);
                    }
                }
                Err(e)
            },
        }
    }

    /// Claims up to `count` unused codes of the collection and marks them
    /// as used, in one step. Returns the codes of the rows it claimed: as
    /// many as were asked for, or all that were left where those are fewer.
    /// A row that was claimed once is never claimed again.
    pub fn allocate(&mut self, collection_id: i64, count: u64) -> (out: Vec<String>)
        requires
            old(self).wf(),
        ensures
            final(self).wf(),
            final(self)@ == (LedgerView {
                codes: after_claim(old(self)@.codes, collection_id, count as nat),
                ..old(self)@
            }),
            texts(out@) == claimed_codes(old(self)@.codes, collection_id, count as nat),
            out@.len() == least(count as nat, unused_count(old(self)@.codes, collection_id)),
            unused_count(final(self)@.codes, collection_id) == unused_count(
                old(self)@.codes,
                collection_id,
            ) - out@.len(),
            used_count(final(self)@.codes, collection_id) == used_count(
                old(self)@.codes,
                collection_id,
            ) + out@.len(),
    {
        let ghost orig = self@.codes;
        let ghost goal = after_claim(orig, collection_id, count as nat);
        let n: usize = self.codes.len();
        let mut out: Vec<String> = Vec::new();
        let mut i: usize = 0;
        while i < n && (out.len() as u64) < count
            invariant
                i <= n,
                n == orig.len(),
                orig == old(self)@.codes,
                goal == after_claim(orig, collection_id, count as nat),
                self@.collections == old(self)@.collections,
                self@.capacity == old(self)@.capacity,
                self@.codes.len() == n,
                out@.len() == unused_count(orig.take(i as int), collection_id),
                out@.len() <= count,
                texts(out@) == claimed_codes(orig.take(i as int), collection_id, count as nat),
                forall|k: int| 0 <= k < i ==> #[trigger] self@.codes[k] == goal[k],
                forall|k: int| i <= k < n ==> #[trigger] self@.codes[k] == orig[k],
            decreases n - i,
        {
            let ghost before = self@.codes;
            let ghost taken = out@;
            proof {
                lemma_unused_count_step(orig, collection_id, i as int);
                assert(orig.take(i + 1).drop_last() == orig.take(i as int));
                assert(orig.take(i + 1).take(i as int) == orig.take(i as int));
                assert(before[i as int] == self.codes@[i as int]@);
            }
            if self.codes[i].collection_id == collection_id && !self.codes[i].is_used {
                self.codes[i].is_used = true;
                out.push(self.codes[i].code.clone());
                proof {
                    assert(is_claimed(orig, collection_id, count as nat, i as int));
                    assert(texts(out@) == texts(taken).push(orig[i as int].code));
                    assert forall|k: int| 0 <= k < n && k != i implies #[trigger] self@.codes[k]
                        == before[k] by {}
                }
            }
            i += 1;
        }
        proof {
            if i < n {
                lemma_claim_saturated(orig, collection_id, count as nat, i as int);
            } else {
                assert(orig.take(n as int) == orig);
            }
            assert(self@.codes == goal);
            lemma_claimed_len(orig, collection_id, count as nat);
            lemma_claim_counts(orig, collection_id, count as nat);
        }
        out
    }

    /// Hands out `count` codes of the collection that carries `title`, or
    /// all that are left of it. Nothing is claimed where no collection
    /// carries the title or where `count` is not positive.
    pub fn get_codes(&mut self, title: &str, count: i64) -> (r: Result<Vec<String>, LedgerError>)
        requires
            old(self).wf(),
        ensures
            final(self).wf(),
            r is Ok <==> known(old(self)@, title@) && count >= 1,
            match r {
                Ok(out) => {
                    &&& final(self)@ == (LedgerView {
                        codes: after_claim(
                            old(self)@.codes,
                            id_of(old(self)@, title@),
                            count as nat,
                        ),
                        ..old(self)@
                    })
                    &&& texts(out@) == claimed_codes(
                        old(self)@.codes,
                        id_of(old(self)@, title@),
                        count as nat,
                    )
                },
                Err(e) => {
                    &&& final(self)@ == old(self)@
                    &&& e == if known(old(self)@, title@) {
                        LedgerError::Validation
                    } else {
                        LedgerError::NotFound
                    }
                },
            },
    {
        let id: i64 = match self.resolve(title) {
            Ok(id) => id,
            Err(e) => {
                return Err(e);
            },
        };
        proof {
            lemma_registered_unique(self@, title@, id);
        }
        if count < 1 {
            return Err(LedgerError::Validation);
        }
        Ok(self.allocate(id, count as u64))
    }

    /// Counts the codes of a collection: all of them, those that have been
    /// issued, and those that have not.
    pub fn count_codes(&self, collection_id: i64) -> (r: (i64, i64, i64))
        requires
            self.wf(),
        ensures
            r.0 == total_count(self@.codes, collection_id),
            r.1 == used_count(self@.codes, collection_id),
            r.2 == unused_count(self@.codes, collection_id),
            r.0 == r.1 + r.2,
    {
        let n: usize = self.codes.len();
        let mut used: i64 = 0;
        let mut unused: i64 = 0;
        let mut i: usize = 0;
        while i < n
            invariant
                i <= n,
                n == self@.codes.len(),
                n <= i64::MAX,
                used == used_count(self@.codes.take(i as int), collection_id),
                unused == unused_count(self@.codes.take(i as int), collection_id),
                used + unused == total_count(self@.codes.take(i as int), collection_id),
                used + unused <= i,
            decreases n - i,
        {
            proof {
                assert(self@.codes.take(i + 1).drop_last() == self@.codes.take(i as int));
                assert(self@.codes[i as int] == self.codes@[i as int]@);
            }
            if self.codes[i].collection_id == collection_id {
                if self.codes[i].is_used {
                    used += 1;
                } else {
                    unused += 1;
                }
            }
            i += 1;
        }
        assert(self@.codes.take(n as int) == self@.codes);
        (used + unused, used, unused)
    }

    /// Reports on the ledger: one entry for each collection, with its
    /// total, used and unused counts. A collection without codes is
    /// reported with zeros. Entries stand in ascending order of their
    /// totals; collections with equal totals stand in the order in which
    /// they were registered.
    pub fn summarize(&self) -> (out: Vec<CategoryListing>)
        requires
            self.wf(),
        ensures
            is_summary(self@, listing_views(out@)),
            out@.len() == self@.collections.len(),
            forall|k: int|
                0 <= k < out@.len() ==> (#[trigger] out@[k])@.total_keys == out@[k]@.used_keys
                    + out@[k]@.unused_keys,
    {
        let m: usize = self.collections.len();
        let mut out: Vec<CategoryListing> = Vec::new();
        let ghost mut order: Seq<int> = Seq::empty();
        let mut c: usize = 0;
        while c < m
            invariant
                c <= m,
                m == self@.collections.len(),
                self.wf(),
                is_order_of_first(self@, order, c as int),
                order.len() == c,
                listing_views(out@) == listings_in(self@, order),
                forall|k: int|
                    0 <= k < out@.len() ==> (#[trigger] out@[k])@.total_keys
                        == out@[k]@.used_keys + out@[k]@.unused_keys,
            decreases m - c,
        {
            assert(self@.collections[c as int] == self.collections@[c as int]@);
            assert(out@.len() == order.len()) by {
                assert(listing_views(out@).len() == listings_in(self@, order).len());
            }
            let (total, used, unused) = self.count_codes(self.collections[c].id);
            let mut p: usize = out.len();
            while p > 0 && out[p - 1].total_keys > total
                invariant
                    p <= out@.len(),
                    forall|k: int| p <= k < out@.len() ==> (#[trigger] out@[k]).total_keys > total,
                decreases p,
            {
                p -= 1;
            }
            let entry = CategoryListing {
                title: self.collections[c].title.clone(),
                total_keys: total,
                used_keys: used,
                unused_keys: unused,
            };
            let ghost before = order;
            let ghost listed = out@;
            proof {
                assert(entry@ == listing_of(self@, c as int));
                assert(forall|k: int|
                    0 <= k < before.len() ==> #[trigger] listing_views(listed)[k]
                        == listing_of(self@, before[k]));
                assert(forall|k: int|
                    0 <= k < before.len() ==> (#[trigger] listed[k])@ == listing_views(
                        listed,
                    )[k]);
                order = before.insert(p as int, c as int);
            }
            out.insert(p, entry);
            proof {
                assert(listing_views(out@) == listings_in(self@, order));
                assert forall|k: int| 0 <= k < order.len() implies is_listed(
                    self@,
                    #[trigger] order[k],
                ) && order[k] < c + 1 by {
                    if k < p {
                        assert(order[k] == before[k]);
                    } else if k > p {
                        assert(order[k] == before[k - 1]);
                    }
                }
                assert forall|d: int| 0 <= d < c + 1 && is_listed(
                    self@,
                    d,
                ) implies #[trigger] order.contains(d) by {
                    if d < c {
                        assert(before.contains(d));
                        let k = choose|k: int| 0 <= k < before.len() && before[k] == d;
                        if k < p {
                            assert(order[k] == d);
                        } else {
                            assert(order[k + 1] == d);
                        }
                    } else {
                        assert(order[p as int] == d);
                    }
                }
                assert forall|j: int, k: int| 0 <= j < k < order.len() implies ranked_before(
                    self@,
                    #[trigger] order[j],
                    #[trigger] order[k],
                ) by {
                    let at = |k: int| if k < p { k } else { k - 1 };
                    if j != p && k != p {
                        assert(order[j] == before[at(j)] && order[k] == before[at(k)]);
                        assert(ranked_before(self@, before[at(j)], before[at(k)]));
                    } else if k == p {
                        assert(order[j] == before[j]);
                        assert(size_of(self@, before[j]) == listed[j]@.total_keys);
                        assert(size_of(self@, before[p - 1]) == listed[p - 1]@.total_keys);
                        if j < p - 1 {
                            assert(ranked_before(self@, before[j], before[p - 1]));
                        }
                    } else {
                        assert(order[k] == before[k - 1]);
                        assert(size_of(self@, before[k - 1]) == listed[k - 1]@.total_keys);
                    }
                }
            }
            c += 1;
        }
        assert(is_summary_order(self@, order));
        out
    }

    /// The number of collections in the registry.
    pub fn collection_count(&self) -> (n: usize)
        ensures
            n == self@.collections.len(),
    {
        self.collections.len()
    }

    /// The number of code rows in the ledger, used or not.
    pub fn code_count(&self) -> (n: usize)
        ensures
            n == self@.codes.len(),
    {
        self.codes.len()
    }

    /// The number of rows that the ledger takes.
    pub fn capacity(&self) -> (n: u64)
        ensures
            n == self@.capacity,
    {
        self.capacity
    }

    /// The code rows, in the order in which they were inserted.
    pub fn codes(&self) -> (rows: &Vec<CodeRow>)
        ensures
            rows@.map_values(|r: CodeRow| r@) == self@.codes,
    {
        &self.codes
    }

    /// The collections, in the order in which they were registered.
    pub fn collections(&self) -> (all: &Vec<Collection>)
        ensures
            all@.map_values(|c: Collection| c@) == self@.collections,
    {
        &self.collections
    }
}

} // verus!
