//! The flows, run against a backend that keeps its transactions as the
//! model says, end in the state that the ledger itself would reach.

use vstd::prelude::*;
use crate::claim::after_claim;
use crate::error::LedgerError;
use crate::flow::{
    Command, GetState, LoadState, Reply, get_transition, insert_or_commit, load_transition,
};
use crate::laws::law_registry_idempotent;
use crate::model::{
    CodeView, LedgerView, can_load, has_collection, id_of, imported, known,
    lemma_registered_unique, loaded, registered, well_formed, with_codes, with_collection,
};
use crate::text::trimmed;

verus! {

/// A transactional backend: what is committed, and what the open
/// transaction sees.
pub struct Backend {
    pub committed: LedgerView,
    pub working: LedgerView,
}

/// A backend that has just been opened on the state `v`.
pub open spec fn backend_on(v: LedgerView) -> Backend {
    Backend { committed: v, working: v }
}

/// The row that the driver hands over for line `line`: the line without
/// the white space around it, unused.
pub open spec fn row_of(lines: Seq<Seq<char>>, line: int, collection_id: i64) -> CodeView {
    CodeView { code: trimmed(lines[line]), collection_id, is_used: false }
}

/// What a faithful backend does with a command, and what it replies. The
/// operation is one on `title`; a load brings `lines`; `export_ok` says
/// whether the export can be written.
pub open spec fn perform(
    b: Backend,
    command: Command,
    title: Seq<char>,
    lines: Seq<Seq<char>>,
    export_ok: bool,
) -> (Backend, Reply) {
    match command {
        Command::Begin => (Backend { working: b.committed, ..b }, Reply::Done),
        Command::FindCollection => if known(b.working, title) {
            (b, Reply::Found(id_of(b.working, title)))
        } else {
            (b, Reply::Missing)
        },
        Command::CreateCollection => if b.working.collections.len() < i64::MAX {
            (
                Backend { working: with_collection(b.working, title), ..b },
                Reply::Created((b.working.collections.len() + 1) as i64),
            )
        } else {
            (b, Reply::Failed)
        },
        Command::InsertCode { collection_id, line } => if has_collection(b.working, collection_id)
            && line < lines.len() && b.working.codes.len() < b.working.capacity {
            (
                Backend {
                    working: with_codes(b.working, seq![row_of(lines, line as int, collection_id)]),
                    ..b
                },
                Reply::Done,
            )
        } else {
            (b, Reply::Failed)
        },
        Command::ClaimCodes { collection_id, count } => if count >= 0 {
            (
                Backend {
                    working: LedgerView {
                        codes: after_claim(b.working.codes, collection_id, count as nat),
                        ..b.working
                    },
                    ..b
                },
                Reply::Done,
            )
        } else {
            (b, Reply::Failed)
        },
        Command::Commit => (Backend { committed: b.working, ..b }, Reply::Done),
        Command::Rollback => (Backend { working: b.committed, ..b }, Reply::Done),
        Command::WriteExport => (b, if export_ok { Reply::Done } else { Reply::Failed }),
        Command::Stop => (b, Reply::Done),
    }
}

/// A load driven to its end: each command is performed by the backend and
/// the reply handed to the next step, for `fuel` commands at most.
pub open spec fn drive_load(
    step: (LoadState, Command),
    b: Backend,
    title: Seq<char>,
    lines: Seq<Seq<char>>,
    fuel: nat,
) -> (LoadState, Backend)
    decreases fuel,
{
    if step.1 == Command::Stop || fuel == 0 {
        (step.0, b)
    } else {
        let (after, reply) = perform(b, step.1, title, lines, true);
        drive_load(
            load_transition(step.0, reply, lines.len() as usize),
            after,
            title,
            lines,
            (fuel - 1) as nat,
        )
    }
}

/// An allocation driven to its end, for `fuel` commands at most.
pub open spec fn drive_get(
    step: (GetState, Command),
    b: Backend,
    title: Seq<char>,
    count: i64,
    export_ok: bool,
    fuel: nat,
) -> (GetState, Backend)
    decreases fuel,
{
    if step.1 == Command::Stop || fuel == 0 {
        (step.0, b)
    } else {
        let (after, reply) = perform(b, step.1, title, Seq::empty(), export_ok);
        drive_get(
            get_transition(step.0, reply, count),
            after,
            title,
            count,
            export_ok,
            (fuel - 1) as nat,
        )
    }
}

/// From the point where `sent` lines are in: the load commits all lines if
/// the rest fits, and rolls everything back if it does not.
proof fn lemma_drive_inserting(
    committed: LedgerView,
    w: LedgerView,
    collection_id: i64,
    sent: nat,
    title: Seq<char>,
    lines: Seq<Seq<char>>,
    fuel: nat,
)
    requires
        well_formed(w),
        has_collection(w, collection_id),
        lines.len() <= usize::MAX,
        sent <= lines.len(),
        w.codes.len() + sent <= w.capacity,
        fuel >= lines.len() - sent + 2,
    ensures
        drive_load(
            insert_or_commit(collection_id, sent as usize, lines.len() as usize),
            Backend {
                committed,
                working: with_codes(w, imported(lines.take(sent as int), collection_id)),
            },
            title,
            lines,
            fuel,
        ) == if w.codes.len() + lines.len() <= w.capacity {
            (
                LoadState::Loaded { count: lines.len() as usize },
                backend_on(with_codes(w, imported(lines, collection_id))),
            )
        } else {
            (LoadState::Failed { error: LedgerError::Backend }, backend_on(committed))
        },
    decreases lines.len() - sent,
{
    let n = lines.len() as usize;
    let working = with_codes(w, imported(lines.take(sent as int), collection_id));
    let b = Backend { committed, working };
    let step = insert_or_commit(collection_id, sent as usize, n);
    assert(working.codes.len() == w.codes.len() + sent);
    if sent < lines.len() {
        let (after, reply) = perform(b, step.1, title, lines, true);
        assert(step.1 == Command::InsertCode { collection_id, line: sent as usize });
        assert(drive_load(step, b, title, lines, fuel) == drive_load(
            load_transition(step.0, reply, n),
            after,
            title,
            lines,
            (fuel - 1) as nat,
        ));
        if working.codes.len() < working.capacity {
            assert(reply == Reply::Done);
            assert(load_transition(step.0, reply, n) == insert_or_commit(
                collection_id,
                (sent + 1) as usize,
                n,
            ));
            let more = with_codes(w, imported(lines.take(sent as int + 1), collection_id));
            assert(imported(lines.take(sent as int + 1), collection_id) == imported(
                lines.take(sent as int),
                collection_id,
            ).push(row_of(lines, sent as int, collection_id)));
            assert(after.working.codes == more.codes);
            assert(after.working == more);
            lemma_drive_inserting(
                committed,
                w,
                collection_id,
                sent + 1,
                title,
                lines,
                (fuel - 1) as nat,
            );
        } else {
            let aborting = load_transition(step.0, reply, n);
            assert(aborting == (LoadState::Aborting, Command::Rollback));
            let (rolled, done) = perform(after, aborting.1, title, lines, true);
            assert(rolled == backend_on(committed));
            assert(load_transition(aborting.0, done, n) == (
                LoadState::Failed { error: LedgerError::Backend },
                Command::Stop,
            ));
            assert(drive_load(aborting, after, title, lines, (fuel - 1) as nat) == drive_load(
                load_transition(aborting.0, done, n),
                rolled,
                title,
                lines,
                (fuel - 2) as nat,
            ));
        }
    } else {
        assert(lines.take(sent as int) == lines);
        let (after, reply) = perform(b, step.1, title, lines, true);
        assert(after == backend_on(working));
        assert(load_transition(step.0, reply, n) == (
            LoadState::Loaded { count: n },
            Command::Stop,
        ));
        assert(drive_load(step, b, title, lines, fuel) == drive_load(
            load_transition(step.0, reply, n),
            after,
            title,
            lines,
            (fuel - 1) as nat,
        ));
    }
}

/// A load that is driven against a faithful backend ends as a load into
/// the ledger does: where the backend can take it, the collection is
/// registered if it was new and every line is committed as a row; where it
/// cannot, the flow reports a backend failure and what is committed is
/// what was committed before.
pub proof fn law_load_flow(v: LedgerView, title: Seq<char>, lines: Seq<Seq<char>>, fuel: nat)
    requires
        well_formed(v),
        lines.len() <= usize::MAX,
        fuel >= lines.len() + 5,
    ensures
        drive_load(
            load_transition(LoadState::Start, Reply::Done, lines.len() as usize),
            backend_on(v),
            title,
            lines,
            fuel,
        ) == if can_load(v, title, lines.len()) {
            (
                LoadState::Loaded { count: lines.len() as usize },
                backend_on(loaded(v, title, lines)),
            )
        } else {
            (LoadState::Failed { error: LedgerError::Backend }, backend_on(v))
        },
{
    let n = lines.len() as usize;
    let b = backend_on(v);
    let s1 = load_transition(LoadState::Start, Reply::Done, n);
    assert(s1 == (LoadState::Beginning, Command::Begin));
    let (b1, r1) = perform(b, s1.1, title, lines, true);
    assert(b1 == b);
    let s2 = load_transition(s1.0, r1, n);
    assert(s2 == (LoadState::Finding, Command::FindCollection));
    assert(drive_load(s1, b, title, lines, fuel) == drive_load(
        s2,
        b1,
        title,
        lines,
        (fuel - 1) as nat,
    ));
    let (b2, r2) = perform(b1, s2.1, title, lines, true);
    let s3 = load_transition(s2.0, r2, n);
    assert(drive_load(s2, b1, title, lines, (fuel - 1) as nat) == drive_load(
        s3,
        b2,
        title,
        lines,
        (fuel - 2) as nat,
    ));
    assert(imported(lines.take(0), 0) =~= Seq::<CodeView>::empty());
    if known(v, title) {
        let id = id_of(v, title);
        lemma_registered_unique(v, title, id);
        assert(with_codes(v, imported(lines.take(0), id)) == v) by {
            assert(imported(lines.take(0), id) =~= Seq::<CodeView>::empty());
            assert(v.codes + Seq::<CodeView>::empty() == v.codes);
        }
        lemma_drive_inserting(v, v, id, 0, title, lines, (fuel - 2) as nat);
    } else if v.collections.len() < i64::MAX {
        let w = with_collection(v, title);
        let id = (v.collections.len() + 1) as i64;
        law_registry_idempotent(v, title);
        assert(registered(w, title, id));
        lemma_registered_unique(w, title, id);
        let (b3, r3) = perform(b2, s3.1, title, lines, true);
        let s4 = load_transition(s3.0, r3, n);
        assert(s4 == insert_or_commit(id, 0, n));
        assert(drive_load(s3, b2, title, lines, (fuel - 2) as nat) == drive_load(
            s4,
            b3,
            title,
            lines,
            (fuel - 3) as nat,
        ));
        assert(with_codes(w, imported(lines.take(0), id)) == w) by {
            assert(imported(lines.take(0), id) =~= Seq::<CodeView>::empty());
            assert(w.codes + Seq::<CodeView>::empty() == w.codes);
        }
        lemma_drive_inserting(v, w, id, 0, title, lines, (fuel - 3) as nat);
    } else {
        let (b3, r3) = perform(b2, s3.1, title, lines, true);
        let s4 = load_transition(s3.0, r3, n);
        assert(s4 == (LoadState::Aborting, Command::Rollback));
        assert(drive_load(s3, b2, title, lines, (fuel - 2) as nat) == drive_load(
            s4,
            b3,
            title,
            lines,
            (fuel - 3) as nat,
        ));
        let (b4, r4) = perform(b3, s4.1, title, lines, true);
        let s5 = load_transition(s4.0, r4, n);
        assert(drive_load(s4, b3, title, lines, (fuel - 3) as nat) == drive_load(
            s5,
            b4,
            title,
            lines,
            (fuel - 4) as nat,
        ));
    }
}

/// An allocation that is driven against a faithful backend ends as an
/// allocation from the ledger does. Nothing is claimed where the title is
/// unknown or the count is not positive. Otherwise the claim is committed,
/// whether or not the export can be written; a failed export is reported
/// as such.
pub proof fn law_get_flow(v: LedgerView, title: Seq<char>, count: i64, export_ok: bool, fuel: nat)
    requires
        well_formed(v),
        fuel >= 6,
    ensures
        drive_get(
            get_transition(GetState::Start, Reply::Done, count),
            backend_on(v),
            title,
            count,
            export_ok,
            fuel,
        ) == if !known(v, title) {
            (GetState::Failed { error: LedgerError::NotFound }, backend_on(v))
        } else if count < 1 {
            (GetState::Failed { error: LedgerError::Validation }, backend_on(v))
        } else {
            (
                if export_ok {
                    GetState::Issued
                } else {
                    GetState::Failed { error: LedgerError::Io }
                },
                backend_on(
                    LedgerView {
                        codes: after_claim(v.codes, id_of(v, title), count as nat),
                        ..v
                    },
                ),
            )
        },
{
    reveal_with_fuel(drive_get, 7);
}

} // verus!
