//! Plain types of the SQLite storage layer, and the statements built from
//! them.

use vstd::prelude::*;

verus! {

/// How a write-ahead-log checkpoint treats readers and writers.
#[derive(Clone, Copy, PartialEq, Eq, Structural, Debug)]
pub enum CheckpointMode {
    /// Does not block readers or writers.
    Passive,
    /// Waits for writers to finish.
    Full,
    /// Like `Full`, then restarts the log.
    Restart,
    /// Like `Restart`, then truncates the log to zero bytes.
    Truncate,
}

/// The pragma that runs a checkpoint in a mode.
pub open spec fn checkpoint_pragma_text(mode: CheckpointMode) -> Seq<char> {
    match mode {
        CheckpointMode::Passive => "PRAGMA wal_checkpoint(PASSIVE)"@,
        CheckpointMode::Full => "PRAGMA wal_checkpoint(FULL)"@,
        CheckpointMode::Restart => "PRAGMA wal_checkpoint(RESTART)"@,
        CheckpointMode::Truncate => "PRAGMA wal_checkpoint(TRUNCATE)"@,
    }
}

impl CheckpointMode {
    /// The pragma statement that runs a checkpoint in this mode.
    pub fn pragma(&self) -> (s: String)
        ensures
            s@ == checkpoint_pragma_text(*self),
    {
        match self {
            CheckpointMode::Passive => String::from_str("PRAGMA wal_checkpoint(PASSIVE)"),
            CheckpointMode::Full => String::from_str("PRAGMA wal_checkpoint(FULL)"),
            CheckpointMode::Restart => String::from_str("PRAGMA wal_checkpoint(RESTART)"),
            CheckpointMode::Truncate => String::from_str("PRAGMA wal_checkpoint(TRUNCATE)"),
        }
    }
}

/// What a checkpoint reports.
#[derive(Clone, Copy, PartialEq, Eq, Structural, Debug)]
pub struct CheckpointInfo {
    /// Some pages could not be checkpointed (readers were active).
    pub busy: bool,
    /// Pages in the log.
    pub log_pages: i32,
    /// Pages checkpointed.
    pub checkpointed_pages: i32,
}

impl CheckpointInfo {
    /// The report of the row the checkpoint pragma returns: busy flag (0 or
    /// not), log pages, checkpointed pages.
    pub fn from_row(busy: i32, log_pages: i32, checkpointed_pages: i32) -> (c: Self)
        ensures
            c == (CheckpointInfo { busy: busy != 0, log_pages, checkpointed_pages }),
    {
        CheckpointInfo { busy: busy != 0, log_pages, checkpointed_pages }
    }
}

/// A schema migration.
#[derive(Clone, Copy, Debug)]
pub struct Migration {
    /// Migration version number.
    pub version: i64,
    /// Migration name.
    pub name: &'static str,
    /// SQL statements to apply.
    pub up: &'static str,
}

/// The migrations to apply, in order: those whose versions are not applied.
pub fn pending_migrations(migrations: &[Migration], applied: &Vec<i64>) -> (r: Vec<usize>)
    ensures
        forall|k: int| 0 <= k < r@.len() ==> r@[k] < migrations@.len(),
        forall|k: int, l: int| 0 <= k < l < r@.len() ==> r@[k] < r@[l],
        forall|i: int|
            0 <= i < migrations@.len() ==> (r@.contains(i as usize) <==> !applied@.contains(
                migrations@[i].version,
            )),
{
    let mut r: Vec<usize> = Vec::new();
    let mut i: usize = 0;
    while i < migrations.len()
        invariant
            i <= migrations@.len(),
            forall|k: int| 0 <= k < r@.len() ==> r@[k] < i,
            forall|k: int, l: int| 0 <= k < l < r@.len() ==> r@[k] < r@[l],
            forall|j: int|
                0 <= j < i ==> (r@.contains(j as usize) <==> !applied@.contains(migrations@[j].version)),
        decreases migrations@.len() - i,
    {
        let v = migrations[i].version;
        let mut found = false;
        let mut k: usize = 0;
        while k < applied.len()
            invariant
                k <= applied@.len(),
                found <==> exists|q: int| 0 <= q < k && applied@[q] == v,
            decreases applied@.len() - k,
        {
            if applied[k] == v {
                found = true;
            }
            k = k + 1;
        }
        let ghost before = r@;
        if !found {
            r.push(i);
        }
        proof {
            assert forall|j: int|
                0 <= j < i + 1 implies (r@.contains(j as usize) <==> !applied@.contains(
                    migrations@[j].version,
                )) by {
                if j < i {
                    if r@.contains(j as usize) {
                        let q = choose|q: int| 0 <= q < r@.len() && r@[q] == j as usize;
                        if q < before.len() {
                            assert(before[q] == j as usize);
                        }
                    }
                    if before.contains(j as usize) {
                        let q = choose|q: int| 0 <= q < before.len() && before[q] == j as usize;
                        assert(r@[q] == j as usize);
                    }
                } else {
                    if r@.contains(j as usize) {
                        let q = choose|q: int| 0 <= q < r@.len() && r@[q] == j as usize;
                        if q < before.len() {
                            assert(before[q] < i);
                        }
                    }
                    if !found {
                        assert(r@[r@.len() - 1] == j as usize);
                    }
                }
            }
        }
        i = i + 1;
    }
    r
}

} // verus!
