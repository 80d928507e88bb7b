//! Rules of the ping history store: the windows the history is summarized
//! over, how long samples are kept, and the schema version.

use vstd::prelude::*;

verus! {

/// Shortest summary window, in minutes.
pub const MIN_WINDOW_MINUTES: i64 = 1;

/// Longest summary window, in minutes (12 hours).
pub const MAX_WINDOW_MINUTES: i64 = 720;

/// Samples older than this many hours are pruned.
pub const HISTORY_RETENTION_HOURS: i64 = 13;

/// The schema version this code creates and understands.
pub const CURRENT_SCHEMA_VERSION: i64 = 1;

/// The window that `clamp_window_minutes` returns for `minutes`.
pub open spec fn clamp_window_minutes_spec(minutes: i64) -> i64 {
    if minutes < MIN_WINDOW_MINUTES {
        MIN_WINDOW_MINUTES
    } else if minutes > MAX_WINDOW_MINUTES {
        MAX_WINDOW_MINUTES
    } else {
        minutes
    }
}

/// The window actually used for a requested window of `minutes`: the
/// request, brought into the range from one minute to twelve hours.
pub fn clamp_window_minutes(minutes: i64) -> (r: i64)
    ensures
        r == clamp_window_minutes_spec(minutes),
        MIN_WINDOW_MINUTES <= r <= MAX_WINDOW_MINUTES,
        minutes < MIN_WINDOW_MINUTES ==> r == MIN_WINDOW_MINUTES,
        minutes > MAX_WINDOW_MINUTES ==> r == MAX_WINDOW_MINUTES,
        MIN_WINDOW_MINUTES <= minutes <= MAX_WINDOW_MINUTES ==> r == minutes,
{
    if minutes < MIN_WINDOW_MINUTES {
        MIN_WINDOW_MINUTES
    } else if minutes > MAX_WINDOW_MINUTES {
        MAX_WINDOW_MINUTES
    } else {
        minutes
    }
}

/// Pruning never takes samples that a summary window can still show: the
/// retention period is longer than the longest window.
pub proof fn lemma_retention_covers_every_window(minutes: i64)
    ensures
        clamp_window_minutes_spec(minutes) < HISTORY_RETENTION_HOURS * 60,
{
}

/// Summary windows run from one minute to twelve hours: a requested window
/// inside that range is used as it is, a shorter one becomes one minute and
/// a longer one twelve hours.
pub proof fn lemma_window_range(minutes: i64)
    ensures
        1 <= clamp_window_minutes_spec(minutes) <= 720,
        1 <= minutes <= 720 ==> clamp_window_minutes_spec(minutes) == minutes,
        minutes < 1 ==> clamp_window_minutes_spec(minutes) == 1,
        minutes > 720 ==> clamp_window_minutes_spec(minutes) == 720,
{
}

/// What to do with a database, given the schema version it records.
#[derive(Debug, Clone, Copy, PartialEq, Eq)]
pub enum MigrationPlan {
    /// The schema is current (or predates versioning in a way this code
    /// leaves alone): nothing to do.
    UpToDate,
    /// A fresh database: create the tables and record the current version.
    CreateSchema,
    /// Written by a newer version of this program: refuse it.
    TooNew,
}

/// The plan for a database whose recorded schema version is `version`.
pub open spec fn migration_plan(version: i64) -> MigrationPlan {
    if version > CURRENT_SCHEMA_VERSION {
        MigrationPlan::TooNew
    } else if version == 0 {
        MigrationPlan::CreateSchema
    } else {
        MigrationPlan::UpToDate
    }
}

/// Decides how to migrate a database whose recorded schema version is
/// `current_version`: refuse a newer one, create the schema in a fresh one
/// (version 0), and leave any other alone.
pub fn plan_migration(current_version: i64) -> (r: MigrationPlan)
    ensures
        r == migration_plan(current_version),
{
    if current_version > CURRENT_SCHEMA_VERSION {
        MigrationPlan::TooNew
    } else if current_version == 0 {
        MigrationPlan::CreateSchema
    } else {
        MigrationPlan::UpToDate
    }
}

/// A fresh database (version 0) gets the schema, a database written by a
/// newer program (version above 1) is refused, and every other database,
/// version 1 among them, is left alone.
pub proof fn lemma_migration_cases(version: i64)
    ensures
        version == 0 ==> migration_plan(version) == MigrationPlan::CreateSchema,
        version > 1 ==> migration_plan(version) == MigrationPlan::TooNew,
        (version < 0 || version == 1) ==> migration_plan(version) == MigrationPlan::UpToDate,
{
}

/// The statements that create the tables and the index of the store.
pub const SCHEMA_TABLES_SQL: &'static str = "
CREATE TABLE IF NOT EXISTS hosts (
    id INTEGER PRIMARY KEY AUTOINCREMENT,
    target TEXT NOT NULL UNIQUE,
    label TEXT,
    interval_seconds INTEGER NOT NULL DEFAULT 2,
    enabled INTEGER NOT NULL DEFAULT 1,
    created_at TEXT NOT NULL,
    last_checked_at TEXT
);

CREATE TABLE IF NOT EXISTS ping_results (
    id INTEGER PRIMARY KEY AUTOINCREMENT,
    host_id INTEGER NOT NULL,
    target TEXT NOT NULL,
    checked_at TEXT NOT NULL,
    latency_ms REAL,
    success INTEGER NOT NULL,
    error TEXT,
    FOREIGN KEY (host_id) REFERENCES hosts(id) ON DELETE CASCADE
);

CREATE INDEX IF NOT EXISTS idx_ping_results_host_time
ON ping_results(host_id, checked_at);

";

/// The decimal digits of `n`.
pub open spec fn decimal(n: nat) -> Seq<char>
    decreases n,
{
    if n < 10 {
        seq![('0' as u32 + n) as char]
    } else {
        decimal(n / 10) + seq![('0' as u32 + n % 10) as char]
    }
}

/// The statement that records schema version `v` in the database.
pub open spec fn version_statement(v: nat) -> Seq<char> {
    "PRAGMA user_version = "@ + decimal(v) + ";"@
}

/// The script that `CreateSchema` runs: the tables and the index, then the
/// record of the current schema version.
pub open spec fn schema_script_text() -> Seq<char> {
    SCHEMA_TABLES_SQL@ + version_statement(CURRENT_SCHEMA_VERSION as nat)
}

/// Builds the script that creates the schema of a fresh database.
pub fn schema_script() -> (r: String)
    ensures
        r@ == schema_script_text(),
{
    let mut r = String::from_str(SCHEMA_TABLES_SQL);
    r.append("PRAGMA user_version = ");
    r.append("1");
    r.append(";");
    proof {
        reveal_strlit("1");
        assert(decimal(1) =~= "1"@);
        assert(r@ =~= schema_script_text());
    }
    r
}

/// The schema version a database records after `plan_migration` has been
/// carried out on it: the current one after `CreateSchema`, else unchanged.
pub open spec fn version_after_migration(version: i64) -> i64 {
    if migration_plan(version) == MigrationPlan::CreateSchema {
        CURRENT_SCHEMA_VERSION
    } else {
        version
    }
}

/// Migrating twice does no harm: once a database has been migrated (its
/// version is not refused), a second migration has nothing to do. A fresh
/// database is given the script that records the current version, and a
/// database at the current version is left alone.
pub proof fn lemma_migration_settles(version: i64)
    requires
        migration_plan(version) != MigrationPlan::TooNew,
    ensures
        migration_plan(version_after_migration(version)) == MigrationPlan::UpToDate,
        schema_script_text() == SCHEMA_TABLES_SQL@ + "PRAGMA user_version = 1;"@,
        migration_plan(CURRENT_SCHEMA_VERSION) == MigrationPlan::UpToDate,
{
    reveal_strlit("PRAGMA user_version = 1;");
    reveal_strlit("PRAGMA user_version = ");
    reveal_strlit(";");
    assert(version_statement(1) =~= "PRAGMA user_version = 1;"@);
}

} // verus!
