//! The migration of the database of enrichment runs.
use vstd::prelude::*;

use crate::domain::{DomainError, DomainErrorView};
use crate::text::concat2;

verus! {

/// The version of the schema.
pub const CURRENT_VERSION: i32 = 2;

/// A step of the migration.
#[derive(Debug, Clone, Copy, PartialEq, Eq, Structural)]
pub enum MigrationStep {
    /// Make the table of versions, if it is not there.
    EnsureTable,
    /// Ask for the highest version.
    QueryVersion,
    /// Begin a transaction that locks the database for writing.
    Begin,
    /// Ask for the highest version again, as another process may have migrated.
    Recheck,
    /// Add the column for the sandbox.
    AddColumn,
    /// Note the new version.
    RecordVersion,
    /// Commit the transaction.
    Commit,
    /// Take the transaction back.
    Rollback,
    /// Nothing is left to do.
    Done,
}

/// What became of a step: the highest version, for the steps that ask for it, or an
/// error.
pub type StepOutcome = Result<Option<i32>, String>;

/// The version that a database has: 0 where none is noted.
pub open spec fn version_of(highest: Option<i32>) -> i32 {
    match highest {
        Some(v) => v,
        None => 0,
    }
}

/// The step after a step that succeeded.
pub open spec fn after(step: MigrationStep, highest: Option<i32>) -> MigrationStep {
    match step {
        MigrationStep::EnsureTable => MigrationStep::QueryVersion,
        MigrationStep::QueryVersion => if version_of(highest) >= CURRENT_VERSION {
            MigrationStep::Done
        } else {
            MigrationStep::Begin
        },
        MigrationStep::Begin => MigrationStep::Recheck,
        MigrationStep::Recheck => if version_of(highest) >= CURRENT_VERSION {
            MigrationStep::Commit
        } else {
            MigrationStep::AddColumn
        },
        MigrationStep::AddColumn => MigrationStep::RecordVersion,
        MigrationStep::RecordVersion => MigrationStep::Commit,
        MigrationStep::Commit => MigrationStep::Done,
        MigrationStep::Rollback => MigrationStep::Done,
        MigrationStep::Done => MigrationStep::Done,
    }
}

/// The step after a step that failed: what was begun is taken back.
pub open spec fn after_failure(step: MigrationStep) -> MigrationStep {
    match step {
        MigrationStep::Recheck => MigrationStep::Rollback,
        MigrationStep::AddColumn => MigrationStep::Rollback,
        MigrationStep::RecordVersion => MigrationStep::Rollback,
        MigrationStep::Commit => MigrationStep::Rollback,
        _ => MigrationStep::Done,
    }
}

/// What is said of a step that failed.
pub open spec fn failure_text(step: MigrationStep) -> Seq<char> {
    match step {
        MigrationStep::EnsureTable => "Failed to ensure schema_version table: "@,
        MigrationStep::QueryVersion => "Failed to query schema version: "@,
        MigrationStep::Begin => "Failed to begin migration transaction: "@,
        MigrationStep::Recheck => "Failed to re-check version: "@,
        MigrationStep::AddColumn => "Failed to add sandbox_id column: "@,
        MigrationStep::RecordVersion => "Failed to record v2 migration: "@,
        MigrationStep::Commit => "Failed to commit migration: "@,
        MigrationStep::Rollback => ""@,
        MigrationStep::Done => ""@,
    }
}

/// A migration on its way.
#[derive(Debug)]
pub struct SchemaMigration {
    step: MigrationStep,
    failure: Option<DomainError>,
}

impl SchemaMigration {
    /// The step to take next.
    pub closed spec fn next(self) -> MigrationStep {
        self.step
    }

    /// What went wrong, if something did.
    pub closed spec fn error(self) -> Option<DomainErrorView> {
        match self.failure {
            Some(e) => Some(e@),
            None => None,
        }
    }

    /// The version that a database has, from the highest one that it notes.
    pub fn get_version(highest: Option<i32>) -> (r: i32)
        ensures
            r == version_of(highest),
            highest matches Some(v) ==> r == v,
            highest is None ==> r == 0,
    {
        match highest {
            Some(v) => v,
            None => 0,
        }
    }

    /// A migration that is to begin.
    pub fn start() -> (r: Self)
        ensures
            r.next() == MigrationStep::EnsureTable,
            r.error() is None,
    {
        SchemaMigration { step: MigrationStep::EnsureTable, failure: None }
    }

    /// The step to take next.
    pub fn step(&self) -> (r: MigrationStep)
        ensures
            r == self.next(),
    {
        self.step
    }

    /// Goes on with what became of the step. The failure of taking a transaction back
    /// is passed over, as the error that led there is the one that counts.
    pub fn advance(&mut self, outcome: StepOutcome)
        ensures
            match outcome {
                Ok(highest) => {
                    &&& final(self).next() == after(old(self).next(), highest)
                    &&& final(self).error() == old(self).error()
                },
                Err(e) => {
                    &&& final(self).next() == after_failure(old(self).next())
                    &&& final(self).error() == (if old(self).next() is Rollback
                        || old(self).next() is Done {
                        old(self).error()
                    } else {
                        Some(DomainErrorView::Internal(failure_text(old(self).next()) + e@))
                    })
                },
            },
            ({
                let before = old(self).next();
                let now = final(self).next();
                &&& outcome matches Ok(highest) ==> {
                    let migrated = highest is Some && highest->0 >= 2;
                    &&& before is EnsureTable ==> now is QueryVersion
                    &&& before is QueryVersion ==> if migrated {
                        now is Done
                    } else {
                        now is Begin
                    }
                    &&& before is Begin ==> now is Recheck
                    &&& before is Recheck ==> if migrated {
                        now is Commit
                    } else {
                        now is AddColumn
                    }
                    &&& before is AddColumn ==> now is RecordVersion
                    &&& before is RecordVersion ==> now is Commit
                    &&& before is Commit || before is Rollback || before is Done ==> now is Done
                }
                &&& outcome is Err ==> {
                    &&& before is Recheck || before is AddColumn || before is RecordVersion
                        || before is Commit <==> now is Rollback
                    &&& now is Rollback || now is Done
                }
                &&& outcome matches Err(e) ==> {
                    &&& before is EnsureTable ==> final(self).error() == Some(
                        DomainErrorView::Internal("Failed to ensure schema_version table: "@ + e@),
                    )
                    &&& before is QueryVersion ==> final(self).error() == Some(
                        DomainErrorView::Internal("Failed to query schema version: "@ + e@),
                    )
                    &&& before is Begin ==> final(self).error() == Some(
                        DomainErrorView::Internal("Failed to begin migration transaction: "@ + e@),
                    )
                    &&& before is Recheck ==> final(self).error() == Some(
                        DomainErrorView::Internal("Failed to re-check version: "@ + e@),
                    )
                    &&& before is AddColumn ==> final(self).error() == Some(
                        DomainErrorView::Internal("Failed to add sandbox_id column: "@ + e@),
                    )
                    &&& before is RecordVersion ==> final(self).error() == Some(
                        DomainErrorView::Internal("Failed to record v2 migration: "@ + e@),
                    )
                    &&& before is Commit ==> final(self).error() == Some(
                        DomainErrorView::Internal("Failed to commit migration: "@ + e@),
                    )
                }
            }),
    {
        match outcome {
            Ok(highest) => {
                let current: i32 = Self::get_version(highest);
                self.step = match self.step {
                    MigrationStep::EnsureTable => MigrationStep::QueryVersion,
                    MigrationStep::QueryVersion => if current >= CURRENT_VERSION {
                        MigrationStep::Done
                    } else {
                        MigrationStep::Begin
                    },
                    MigrationStep::Begin => MigrationStep::Recheck,
                    MigrationStep::Recheck => if current >= CURRENT_VERSION {
                        MigrationStep::Commit
                    } else {
                        MigrationStep::AddColumn
                    },
                    MigrationStep::AddColumn => MigrationStep::RecordVersion,
                    MigrationStep::RecordVersion => MigrationStep::Commit,
                    MigrationStep::Commit => MigrationStep::Done,
                    MigrationStep::Rollback => MigrationStep::Done,
                    MigrationStep::Done => MigrationStep::Done,
                };
            },
            Err(e) => {
                let text: &str = match self.step {
                    MigrationStep::EnsureTable => "Failed to ensure schema_version table: ",
                    MigrationStep::QueryVersion => "Failed to query schema version: ",
                    MigrationStep::Begin => "Failed to begin migration transaction: ",
                    MigrationStep::Recheck => "Failed to re-check version: ",
                    MigrationStep::AddColumn => "Failed to add sandbox_id column: ",
                    MigrationStep::RecordVersion => "Failed to record v2 migration: ",
                    MigrationStep::Commit => "Failed to commit migration: ",
                    MigrationStep::Rollback => "",
                    MigrationStep::Done => "",
                };
                match self.step {
                    MigrationStep::Rollback | MigrationStep::Done => {},
                    _ => {
                        self.failure = Some(DomainError::Internal(concat2(text, e.as_str())));
                    },
                }
                self.step = match self.step {
                    MigrationStep::Recheck => MigrationStep::Rollback,
                    MigrationStep::AddColumn => MigrationStep::Rollback,
                    MigrationStep::RecordVersion => MigrationStep::Rollback,
                    MigrationStep::Commit => MigrationStep::Rollback,
                    _ => MigrationStep::Done,
                };
            },
        }
    }

    /// How the migration came out.
    pub fn finish(self) -> (r: Result<(), DomainError>)
        ensures
            match r {
                Ok(_) => self.error() is None,
                Err(e) => self.error() == Some(e@),
            },
    {
        match self.failure {
            None => Ok(()),
            Some(e) => Err(e),
        }
    }
}

/// The value of a column in a row; none where it is `NULL`.
pub type Cell = Option<Seq<char>>;

/// What a database holds: the highest version that it notes (0 where it notes none), and the
/// columns and rows of the table of runs.
#[verifier::ext_equal]
pub struct Stored {
    pub version: int,
    pub columns: Seq<Seq<char>>,
    pub rows: Seq<Seq<Cell>>,
}

/// A database, and what it held when the open transaction began.
#[verifier::ext_equal]
pub struct Database {
    pub stored: Stored,
    pub before: Option<Stored>,
}

/// The rows with one more column, which is `NULL` in each.
pub open spec fn widened(rows: Seq<Seq<Cell>>) -> Seq<Seq<Cell>> {
    rows.map_values(|row: Seq<Cell>| row.push(None))
}

/// What a step does to the database when it succeeds.
pub open spec fn effect(step: MigrationStep, d: Database) -> Database {
    match step {
        MigrationStep::Begin => Database { before: Some(d.stored), ..d },
        MigrationStep::AddColumn => Database {
            stored: Stored {
                columns: d.stored.columns.push("sandbox_id"@),
                rows: widened(d.stored.rows),
                ..d.stored
            },
            ..d
        },
        MigrationStep::RecordVersion => Database {
            stored: Stored { version: CURRENT_VERSION as int, ..d.stored },
            ..d
        },
        MigrationStep::Commit => Database { before: None, ..d },
        MigrationStep::Rollback => match d.before {
            Some(stored) => Database { stored, before: None },
            None => d,
        },
        _ => d,
    }
}

/// The database after the steps from one on are taken, and the step whose failure is
/// reported. The step of the given number fails (none, where the number is negative), and
/// each step that asks for the version gets that of the database.
pub open spec fn run_from(step: MigrationStep, d: Database, fails: int, fuel: nat) -> (
    Database,
    Option<MigrationStep>,
)
    decreases fuel,
{
    if step is Done || fuel == 0 {
        (d, None)
    } else if fails == 0 {
        (run_from(after_failure(step), d, -1, (fuel - 1) as nat).0, Some(step))
    } else {
        run_from(
            after(step, Some(d.stored.version as i32)),
            effect(step, d),
            fails - 1,
            (fuel - 1) as nat,
        )
    }
}

/// What a migration is to leave: the version, the column, and every row with its values and
/// `NULL` in the new column.
pub open spec fn migrated(s: Stored) -> Stored {
    Stored {
        version: CURRENT_VERSION as int,
        columns: s.columns.push("sandbox_id"@),
        rows: widened(s.rows),
    }
}

/// A migration brings the database to its version and adds the column; run again, it
/// changes nothing, and neither run fails. Wherever a step fails, the failure is reported and
/// the database holds what it held before.
pub proof fn law_migration_is_idempotent_and_atomic(s: Stored, fails: int)
    requires
        i32::MIN <= s.version < CURRENT_VERSION,
        0 <= fails < 7,
    ensures
        ({
            let start = Database { stored: s, before: None };
            let end = Database { stored: migrated(s), before: None };
            &&& run_from(MigrationStep::EnsureTable, start, -1, 9) == (end, None::<MigrationStep>)
            &&& run_from(MigrationStep::EnsureTable, end, -1, 9) == (end, None::<MigrationStep>)
            &&& run_from(MigrationStep::EnsureTable, start, fails, 9).0 == start
            &&& run_from(MigrationStep::EnsureTable, start, fails, 9).1 is Some
        }),
{
    reveal_with_fuel(run_from, 10);
    if fails == 0 {
    } else if fails == 1 {
    } else if fails == 2 {
    } else if fails == 3 {
    } else if fails == 4 {
    } else if fails == 5 {
    } else {
    }
}

/// A migration loses no data: every row is still there in its place with all of its values,
/// and has `NULL` in the new column, which stands once among the columns.
pub proof fn law_migration_keeps_all_rows(s: Stored)
    requires
        !s.columns.contains("sandbox_id"@),
    ensures
        migrated(s).rows.len() == s.rows.len(),
        forall|i: int|
            0 <= i < s.rows.len() ==> {
                &&& (#[trigger] migrated(s).rows[i]).drop_last() == s.rows[i]
                &&& migrated(s).rows[i].last() is None
            },
        migrated(s).columns.drop_last() == s.columns,
        forall|k: int|
            0 <= k < migrated(s).columns.len() ==> (#[trigger] migrated(s).columns[k]
                == "sandbox_id"@ <==> k == s.columns.len()),
{
    assert forall|i: int| 0 <= i < s.rows.len() implies (
    #[trigger] migrated(s).rows[i]).drop_last() == s.rows[i] by {
        assert(migrated(s).rows[i].drop_last() =~= s.rows[i]);
    }
    assert(migrated(s).columns.drop_last() =~= s.columns);
    assert forall|k: int| 0 <= k < s.columns.len() implies #[trigger] migrated(s).columns[k]
        != "sandbox_id"@ by {
        assert(s.columns.contains(s.columns[k]));
    }
}

} // verus!
