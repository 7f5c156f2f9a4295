//! The order in which a load and an allocation talk to a transactional
//! backend. The backend itself is driven from outside: a driver performs
//! each command, hands the backend's reply to the step function and gets
//! the next command, until the command is [`Command::Stop`].
//!
//! A load inserts its lines within one transaction and commits only when
//! every line is in; any failure before that rolls the transaction back.
//! An allocation commits its claim before the export is written, so that a
//! failed export leaves the claimed codes marked as used.

use vstd::prelude::*;
use crate::error::LedgerError;

verus! {

/// What the driver is to do next.
#[derive(Clone, Copy, Debug, PartialEq, Eq, Structural)]
pub enum Command {
    /// Open a transaction.
    Begin,
    /// Look the collection up by the title of the operation.
    FindCollection,
    /// Register a collection under the title of the operation.
    CreateCollection,
    /// Insert the code of line `line`, unused, into the collection.
    InsertCode { collection_id: i64, line: usize },
    /// Claim up to `count` unused codes of the collection and mark them as
    /// used, in one indivisible step.
    ClaimCodes { collection_id: i64, count: i64 },
    /// Commit the transaction.
    Commit,
    /// Roll the transaction back.
    Rollback,
    /// Write the export of the claimed codes.
    WriteExport,
    /// Nothing more is to be done: the state tells how the operation ended.
    Stop,
}

/// What came of the last command.
#[derive(Clone, Copy, Debug, PartialEq, Eq, Structural)]
pub enum Reply {
    /// The command was carried out.
    Done,
    /// The lookup found the collection with this identifier.
    Found(i64),
    /// The lookup found no collection.
    Missing,
    /// The collection was registered under this identifier.
    Created(i64),
    /// The command failed.
    Failed,
}

/// Where a load stands.
#[derive(Clone, Copy, Debug, PartialEq, Eq, Structural)]
pub enum LoadState {
    /// Nothing has been asked of the backend yet.
    Start,
    /// The transaction is being opened.
    Beginning,
    /// The collection is being looked up.
    Finding,
    /// The collection is being registered.
    Creating,
    /// The first `sent` lines have been handed to the backend; the reply to
    /// the last of them is awaited.
    Inserting { collection_id: i64, sent: usize },
    /// Every line is in and the commit is under way.
    Committing,
    /// The transaction is being rolled back.
    Aborting,
    /// The load is committed: `count` rows were inserted.
    Loaded { count: usize },
    /// The load failed and nothing of it is committed.
    Failed { error: LedgerError },
}

/// Where an allocation stands.
#[derive(Clone, Copy, Debug, PartialEq, Eq, Structural)]
pub enum GetState {
    /// Nothing has been asked of the backend yet.
    Start,
    /// The transaction is being opened.
    Beginning,
    /// The collection is being looked up.
    Finding,
    /// The claim is under way.
    Claiming,
    /// The claim is being committed.
    Committing,
    /// The claim is committed and the export is being written.
    Exporting,
    /// The transaction is being rolled back because of `error`.
    Aborting { error: LedgerError },
    /// The codes are claimed, committed and exported.
    Issued,
    /// The allocation ended with `error`. With [`LedgerError::Io`] the claim
    /// is committed and only the export is missing; with every other error
    /// nothing is committed.
    Failed { error: LedgerError },
}

/// After `sent` of `lines` lines: the next line where one is left, else the
/// commit.
pub open spec fn insert_or_commit(collection_id: i64, sent: usize, lines: usize) -> (
    LoadState,
    Command,
) {
    if sent < lines {
        (
            LoadState::Inserting { collection_id, sent: (sent + 1) as usize },
            Command::InsertCode { collection_id, line: sent },
        )
    } else {
        (LoadState::Committing, Command::Commit)
    }
}

/// The step of a load of `lines` lines: from where it stands and what the
/// backend replied to where it stands next and what is to be done.
pub open spec fn load_transition(state: LoadState, reply: Reply, lines: usize) -> (
    LoadState,
    Command,
) {
    match state {
        LoadState::Start => (LoadState::Beginning, Command::Begin),
        LoadState::Beginning => match reply {
            Reply::Done => (LoadState::Finding, Command::FindCollection),
            _ => (LoadState::Failed { error: LedgerError::Backend }, Command::Stop),
        },
        LoadState::Finding => match reply {
            Reply::Found(id) => insert_or_commit(id, 0, lines),
            Reply::Missing => (LoadState::Creating, Command::CreateCollection),
            _ => (LoadState::Aborting, Command::Rollback),
        },
        LoadState::Creating => match reply {
            Reply::Created(id) => insert_or_commit(id, 0, lines),
            _ => (LoadState::Aborting, Command::Rollback),
        },
        LoadState::Inserting { collection_id, sent } => match reply {
            Reply::Done => insert_or_commit(collection_id, sent, lines),
            _ => (LoadState::Aborting, Command::Rollback),
        },
        LoadState::Committing => match reply {
            Reply::Done => (LoadState::Loaded { count: lines }, Command::Stop),
            _ => (LoadState::Failed { error: LedgerError::Backend }, Command::Stop),
        },
        LoadState::Aborting => (LoadState::Failed { error: LedgerError::Backend }, Command::Stop),
        LoadState::Loaded { count } => (state, Command::Stop),
        LoadState::Failed { error } => (state, Command::Stop),
    }
}

/// The step of an allocation of `count` codes: from where it stands and
/// what the backend replied to where it stands next and what is to be done.
pub open spec fn get_transition(state: GetState, reply: Reply, count: i64) -> (GetState, Command) {
    match state {
        GetState::Start => (GetState::Beginning, Command::Begin),
        GetState::Beginning => match reply {
            Reply::Done => (GetState::Finding, Command::FindCollection),
            _ => (GetState::Failed { error: LedgerError::Backend }, Command::Stop),
        },
        GetState::Finding => match reply {
            Reply::Found(id) => if count >= 1 {
                (GetState::Claiming, Command::ClaimCodes { collection_id: id, count })
            } else {
                (GetState::Aborting { error: LedgerError::Validation }, Command::Rollback)
            },
            Reply::Missing => (
                GetState::Aborting { error: LedgerError::NotFound },
                Command::Rollback,
            ),
            _ => (GetState::Aborting { error: LedgerError::Backend }, Command::Rollback),
        },
        GetState::Claiming => match reply {
            Reply::Done => (GetState::Committing, Command::Commit),
            _ => (GetState::Aborting { error: LedgerError::Backend }, Command::Rollback),
        },
        GetState::Committing => match reply {
            Reply::Done => (GetState::Exporting, Command::WriteExport),
            _ => (GetState::Failed { error: LedgerError::Backend }, Command::Stop),
        },
        GetState::Exporting => match reply {
            Reply::Done => (GetState::Issued, Command::Stop),
            _ => (GetState::Failed { error: LedgerError::Io }, Command::Stop),
        },
        GetState::Aborting { error } => (GetState::Failed { error }, Command::Stop),
        GetState::Issued => (state, Command::Stop),
        GetState::Failed { error } => (state, Command::Stop),
    }
}

fn next_insert(collection_id: i64, sent: usize, lines: usize) -> (r: (LoadState, Command))
    ensures
        r == insert_or_commit(collection_id, sent, lines),
{
    if sent < lines {
        (
            LoadState::Inserting { collection_id, sent: sent + 1 },
            Command::InsertCode { collection_id, line: sent },
        )
    } else {
        (LoadState::Committing, Command::Commit)
    }
}

/// Advances a load of `lines` lines by one step. The first call is made in
/// [`LoadState::Start`], where the reply is not looked at.
pub fn load_step(state: LoadState, reply: Reply, lines: usize) -> (r: (LoadState, Command))
    ensures
        r == load_transition(state, reply, lines),
{
    match state {
        LoadState::Start => (LoadState::Beginning, Command::Begin),
        LoadState::Beginning => match reply {
            Reply::Done => (LoadState::Finding, Command::FindCollection),
            _ => (LoadState::Failed { error: LedgerError::Backend }, Command::Stop),
        },
        LoadState::Finding => match reply {
            Reply::Found(id) => next_insert(id, 0, lines),
            Reply::Missing => (LoadState::Creating, Command::CreateCollection),
            _ => (LoadState::Aborting, Command::Rollback),
        },
        LoadState::Creating => match reply {
            Reply::Created(id) => next_insert(id, 0, lines),
            _ => (LoadState::Aborting, Command::Rollback),
        },
        LoadState::Inserting { collection_id, sent } => match reply {
            Reply::Done => next_insert(collection_id, sent, lines),
            _ => (LoadState::Aborting, Command::Rollback),
        },
        LoadState::Committing => match reply {
            Reply::Done => (LoadState::Loaded { count: lines }, Command::Stop),
            _ => (LoadState::Failed { error: LedgerError::Backend }, Command::Stop),
        },
        LoadState::Aborting => (LoadState::Failed { error: LedgerError::Backend }, Command::Stop),
        LoadState::Loaded { count } => (state, Command::Stop),
        LoadState::Failed { error } => (state, Command::Stop),
    }
}

/// Advances an allocation of `count` codes by one step. The first call is
/// made in [`GetState::Start`], where the reply is not looked at.
pub fn get_step(state: GetState, reply: Reply, count: i64) -> (r: (GetState, Command))
    ensures
        r == get_transition(state, reply, count),
{
    match state {
        GetState::Start => (GetState::Beginning, Command::Begin),
        GetState::Beginning => match reply {
            Reply::Done => (GetState::Finding, Command::FindCollection),
            _ => (GetState::Failed { error: LedgerError::Backend }, Command::Stop),
        },
        GetState::Finding => match reply {
            Reply::Found(id) => if count >= 1 {
                (GetState::Claiming, Command::ClaimCodes { collection_id: id, count })
            } else {
                (GetState::Aborting { error: LedgerError::Validation }, Command::Rollback)
            },
            Reply::Missing => (
                GetState::Aborting { error: LedgerError::NotFound },
                Command::Rollback,
            ),
            _ => (GetState::Aborting { error: LedgerError::Backend }, Command::Rollback),
        },
        GetState::Claiming => match reply {
            Reply::Done => (GetState::Committing, Command::Commit),
            _ => (GetState::Aborting { error: LedgerError::Backend }, Command::Rollback),
        },
        GetState::Committing => match reply {
            Reply::Done => (GetState::Exporting, Command::WriteExport),
            _ => (GetState::Failed { error: LedgerError::Backend }, Command::Stop),
        },
        GetState::Exporting => match reply {
            Reply::Done => (GetState::Issued, Command::Stop),
            _ => (GetState::Failed { error: LedgerError::Io }, Command::Stop),
        },
        GetState::Aborting { error } => (GetState::Failed { error }, Command::Stop),
        GetState::Issued => (state, Command::Stop),
        GetState::Failed { error } => (state, Command::Stop),
    }
}

} // verus!
