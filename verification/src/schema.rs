//! The tables of the ledger, and how a database file gets them.

use vstd::prelude::*;

verus! {

/// Run on every connection that is opened: without it SQLite does not hold rows to the `REFERENCES`
/// clauses below.
pub const ENABLE_FOREIGN_KEYS: &'static str = "PRAGMA foreign_keys = ON;";

/// Reads the version of the tables in a database file.
pub const READ_VERSION: &'static str = "PRAGMA user_version;";

/// Marks a database file as holding the tables below.
pub const SET_VERSION: &'static str = "PRAGMA user_version = 2;";

/// All tables of the ledger.
///
/// The two checks at the end of `transactions` stand behind those of `validation`, for rows that come
/// from elsewhere. The one on the date looks at the day and the time of day, not at the offset; it
/// says `IS` because `strftime` makes NULL of a text that is no date, and a check that comes to NULL
/// passes. The hour and the length are looked at by themselves because `strftime` also accepts an hour
/// of 24, and years before the year 0.
pub const SCHEMA: &'static str = "
CREATE TABLE currencies (
    id         INTEGER PRIMARY KEY,
    code       TEXT NOT NULL UNIQUE,
    minor_unit INTEGER NOT NULL CHECK (minor_unit BETWEEN 0 AND 4)
);

CREATE TABLE accounts (
    id          INTEGER PRIMARY KEY,
    name        TEXT NOT NULL,
    type        TEXT NOT NULL CHECK (type IN ('own','external')),
    currency_id INTEGER REFERENCES currencies(id),
    CHECK (
        (type = 'own'      AND currency_id IS NOT NULL) OR
        (type = 'external' AND currency_id IS NULL)
    )
);

CREATE UNIQUE INDEX accounts_name_type ON accounts (name, type);

CREATE TABLE categories (
    id   INTEGER PRIMARY KEY,
    name TEXT NOT NULL UNIQUE
);

CREATE TABLE transactions (
    id                   TEXT PRIMARY KEY,
    batch_id             TEXT,
    description          TEXT NOT NULL,
    date                 TEXT NOT NULL,
    amount               INTEGER NOT NULL CHECK (amount != 0),
    opposing_amount      INTEGER CHECK (opposing_amount IS NULL OR opposing_amount > 0),
    account_id           INTEGER NOT NULL REFERENCES accounts(id),
    opposing_account_id  INTEGER NOT NULL REFERENCES accounts(id),
    category_id          INTEGER REFERENCES categories(id) ON DELETE SET NULL,
    created_at           TEXT NOT NULL DEFAULT (datetime('now')),
    updated_at           TEXT NOT NULL DEFAULT (datetime('now')),
    CHECK (account_id <> opposing_account_id),
    CHECK (
        (length(date) = 10 AND date IS strftime('%Y-%m-%d', date)) OR
        (substr(date,12,2) < '24' AND
         substr(date,1,19) IS strftime('%Y-%m-%dT%H:%M:%S', substr(date,1,19)))
    )
);
";

/// Gives the transactions of an older file the checks on their two accounts and on their date. SQLite
/// cannot add a check to a table, so the rows move to a new one.
pub const REBUILD_TRANSACTIONS: &'static str = "
BEGIN;
CREATE TABLE checked_transactions (
    id                   TEXT PRIMARY KEY,
    batch_id             TEXT,
    description          TEXT NOT NULL,
    date                 TEXT NOT NULL,
    amount               INTEGER NOT NULL CHECK (amount != 0),
    opposing_amount      INTEGER CHECK (opposing_amount IS NULL OR opposing_amount > 0),
    account_id           INTEGER NOT NULL REFERENCES accounts(id),
    opposing_account_id  INTEGER NOT NULL REFERENCES accounts(id),
    category_id          INTEGER REFERENCES categories(id) ON DELETE SET NULL,
    created_at           TEXT NOT NULL DEFAULT (datetime('now')),
    updated_at           TEXT NOT NULL DEFAULT (datetime('now')),
    CHECK (account_id <> opposing_account_id),
    CHECK (
        (length(date) = 10 AND date IS strftime('%Y-%m-%d', date)) OR
        (substr(date,12,2) < '24' AND
         substr(date,1,19) IS strftime('%Y-%m-%dT%H:%M:%S', substr(date,1,19)))
    )
);
INSERT INTO checked_transactions
    SELECT id, batch_id, description, date, amount, opposing_amount,
           account_id, opposing_account_id, category_id, created_at, updated_at
    FROM transactions;
DROP TABLE transactions;
ALTER TABLE checked_transactions RENAME TO transactions;
COMMIT;
";

/// Gives the accounts of an older file their unique index.
pub const ADD_ACCOUNTS_INDEX: &'static str =
    "CREATE UNIQUE INDEX accounts_name_type ON accounts (name, type);";

/// One step that brings a database file up to date.
#[derive(Debug, Clone, Copy, PartialEq, Eq, Structural)]
pub enum Migration {
    CreateTables,
    RebuildTransactions,
    AddAccountsIndex,
    SetVersion,
}

/// The SQL of a step.
pub open spec fn sql_of(step: Migration) -> Seq<char> {
    match step {
        Migration::CreateTables => SCHEMA@,
        Migration::RebuildTransactions => REBUILD_TRANSACTIONS@,
        Migration::AddAccountsIndex => ADD_ACCOUNTS_INDEX@,
        Migration::SetVersion => SET_VERSION@,
    }
}

/// What to say where a step fails.
pub open spec fn failure_of(step: Migration) -> Seq<char> {
    match step {
        Migration::CreateTables => "failed to apply schema"@,
        Migration::RebuildTransactions => "failed to rebuild transactions"@,
        Migration::AddAccountsIndex => "failed to add accounts_name_type index"@,
        Migration::SetVersion => "failed to set user_version"@,
    }
}

impl Migration {
    /// The SQL of this step.
    pub fn sql(&self) -> (sql: &'static str)
        ensures
            sql@ == sql_of(*self),
    {
        match self {
            Migration::CreateTables => SCHEMA,
            Migration::RebuildTransactions => REBUILD_TRANSACTIONS,
            Migration::AddAccountsIndex => ADD_ACCOUNTS_INDEX,
            Migration::SetVersion => SET_VERSION,
        }
    }

    /// What to say where this step fails.
    pub fn failure(&self) -> (message: &'static str)
        ensures
            message@ == failure_of(*self),
    {
        match self {
            Migration::CreateTables => "failed to apply schema",
            Migration::RebuildTransactions => "failed to rebuild transactions",
            Migration::AddAccountsIndex => "failed to add accounts_name_type index",
            Migration::SetVersion => "failed to set user_version",
        }
    }
}

/// The version of a database file that holds the tables of `SCHEMA`.
pub const CURRENT_VERSION: i64 = 2;

/// The steps that bring a file of version `version` up to date; `None` for a version that is not
/// known, where there is nothing safe to do.
pub open spec fn migrations(version: i64) -> Option<Seq<Migration>> {
    if version == 0 {
        Some(seq![Migration::CreateTables, Migration::SetVersion])
    } else if version == 1 {
        Some(
            seq![
                Migration::RebuildTransactions,
                Migration::AddAccountsIndex,
                Migration::SetVersion,
            ],
        )
    } else if version == CURRENT_VERSION {
        Some(seq![])
    } else {
        None
    }
}

/// Plans how to bring a database file up to date, by the version that it says it has. An unknown
/// version comes back as the error.
pub fn migrate(version: i64) -> (steps: Result<Vec<Migration>, i64>)
    ensures
        match steps {
            Ok(steps) => migrations(version) == Some(steps@),
            Err(unknown) => migrations(version) is None && unknown == version,
        },
{
    let mut steps: Vec<Migration> = Vec::new();
    if version == 0 {
        steps.push(Migration::CreateTables);
        steps.push(Migration::SetVersion);
    } else if version == 1 {
        steps.push(Migration::RebuildTransactions);
        steps.push(Migration::AddAccountsIndex);
        steps.push(Migration::SetVersion);
    } else if version != CURRENT_VERSION {
        return Err(version);
    }
    assert(steps@ =~= migrations(version)->0);
    Ok(steps)
}

/// A file that is out of date but known ends with the mark of the current version, and a file that
/// bears it is left alone.
pub proof fn law_migration_ends_at_current_version(version: i64)
    requires
        migrations(version) is Some,
    ensures
        version == CURRENT_VERSION <==> migrations(version)->0.len() == 0,
        version != CURRENT_VERSION ==> migrations(version)->0.last() is SetVersion,
{
}

} // verus!
